use vstd::prelude::*;

use crate::address::BaseUrl;
use crate::client::StartHeight;
use crate::engine::Engine;

verus! {

/// An HTTP-backed streaming client bound to one base address.
#[derive(Debug)]
pub struct HttpClient {
    /// The base address of the archive service.
    pub base: BaseUrl,
}

impl HttpClient {
    pub fn new(url: BaseUrl) -> (r: Self)
        ensures
            r.base == url,
    {
        HttpClient { base: url }
    }

    /// Opens a streaming session from `start_height`. The returned engine
    /// decides every step of the session; the host performs its actions
    /// (requests, deliveries to a sink, pauses) and feeds each outcome back.
    pub fn stream(&self, start_height: StartHeight) -> (r: Engine)
        ensures
            r.wf(),
            r.base@ == self.base.text@,
            r.start == start_height,
            r.last_frontier is None,
            r.phase is Waiting,
            r.frontiers@ == Seq::<u64>::empty(),
            r.completed@ == Seq::<u64>::empty(),
    {
        Engine::new(&self.base, start_height)
    }
}

} // verus!
