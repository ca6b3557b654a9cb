//! The connection record and the control dispatcher.

use vstd::prelude::*;
use crate::interlinker::job::{is_listed, Job, JobView};
use crate::interlinker::message::ClientRequest;
use crate::text::same_text;

verus! {

/// `origins` with every occurrence of `origin` struck out, the rest in order.
pub open spec fn without(origins: Seq<Seq<char>>, origin: Seq<char>) -> Seq<Seq<char>>
    decreases origins.len(),
{
    if origins.len() == 0 {
        origins
    } else if origins.last() == origin {
        without(origins.drop_last(), origin)
    } else {
        without(origins.drop_last(), origin).push(origins.last())
    }
}

/// The record of one connection: its identity and the origins of the jobs
/// that run on it and have not been stopped.
#[derive(Debug, Clone)]
pub struct Client {
    pub id: usize,
    pub active_origins: Vec<String>,
}

impl Client {
    /// The record of a connection that has just been opened: no job runs.
    pub fn new(id: usize) -> (client: Client)
        ensures
            client.id == id,
            client.active_origins.deep_view() == Seq::<Seq<char>>::empty(),
    {
        let client = Client { id, active_origins: Vec::new() };
        assert(client.active_origins.deep_view() =~= Seq::<Seq<char>>::empty());
        client
    }

    /// Whether a job on `origin` is listed as running.
    pub fn is_active(&self, origin: &str) -> (active: bool)
        ensures
            active == self.active_origins.deep_view().contains(origin@),
    {
        is_listed(&self.active_origins, origin)
    }

    /// Lists `origin` as running and hands out the job on it.
    pub fn start(&mut self, origin: String) -> (job: Job)
        ensures
            final(self).id == old(self).id,
            final(self).active_origins.deep_view() == old(self).active_origins.deep_view().push(
                origin@,
            ),
            job@ == JobView::fresh(origin@),
    {
        let ghost before = self.active_origins.deep_view();
        self.active_origins.push(origin.clone());
        assert(self.active_origins.deep_view() =~= before.push(origin@));
        Job::new(origin)
    }

    /// Strikes every occurrence of `origin` from the running origins. An
    /// origin that is not listed leaves the record as it is.
    pub fn stop(&mut self, origin: &str)
        ensures
            final(self).id == old(self).id,
            final(self).active_origins.deep_view() == without(
                old(self).active_origins.deep_view(),
                origin@,
            ),
    {
        let mut kept: Vec<String> = Vec::new();
        let mut i: usize = 0;
        while i < self.active_origins.len()
            invariant
                *self == *old(self),
                i <= self.active_origins.len(),
                kept.deep_view() == without(self.active_origins.deep_view().take(i as int), origin@),
            decreases self.active_origins.len() - i,
        {
            let ghost all = self.active_origins.deep_view();
            let ghost so_far = kept.deep_view();
            proof {
                assert(all.take(i + 1).drop_last() =~= all.take(i as int));
                assert(all.take(i + 1).last() == all[i as int]);
            }
            if !same_text(self.active_origins[i].as_str(), origin) {
                kept.push(self.active_origins[i].clone());
                assert(kept.deep_view() =~= so_far.push(all[i as int]));
            }
            i += 1;
        }
        proof {
            let all = self.active_origins.deep_view();
            assert(all.take(all.len() as int) =~= all);
        }
        self.active_origins = kept;
    }
}

/// The subject that cancels a job.
pub open spec fn is_stop(subject: Seq<char>) -> bool {
    subject == "stop-origin"@
}

/// The control dispatcher. A request with the subject `stop-origin` cancels
/// the jobs on its payload and hands out nothing; any other request lists its
/// payload as running and hands out the job to run on it.
pub fn handle_msg(client: &mut Client, request: ClientRequest) -> (job: Option<Job>)
    ensures
        final(client).id == old(client).id,
        is_stop(request.subject@) ==> job is None && final(client).active_origins.deep_view()
            == without(old(client).active_origins.deep_view(), request.payload@),
        !is_stop(request.subject@) ==> job is Some && job->0@ == JobView::fresh(request.payload@)
            && final(client).active_origins.deep_view() == old(
            client,
        ).active_origins.deep_view().push(request.payload@),
{
    if same_text(request.subject.as_str(), "stop-origin") {
        client.stop(request.payload.as_str());
        None
    } else {
        Some(client.start(request.payload))
    }
}

} // verus!
