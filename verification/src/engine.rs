use vstd::pervasive::unreached;
use vstd::prelude::*;

use crate::address::{parse_url_text, parsed_url, BaseUrl};
use crate::client::{Block, ClientError, StartHeight};
use crate::endpoints::{
    build_height_endpoint, build_query_body, build_worker_endpoint, height_endpoint, query_body,
    worker_endpoint,
};
use crate::numeric::{parsed_u64, parses_as_u64, parse_u64};
use crate::text::{utf8_decode, utf8_of};

verus! {

/// How long the engine pauses between two polling cycles, in seconds.
pub const CYCLE_PAUSE_SECONDS: u64 = 5;

/// One outward step the host must perform for the engine.
#[derive(Debug)]
pub enum Action {
    /// Issue an HTTP GET to the height endpoint `url`; answer with
    /// `Event::Response` or `Event::TransportFailed`.
    FetchHeight { url: String },
    /// Issue an HTTP GET to the per-height worker endpoint `url`; answer
    /// with `Event::Response` or `Event::TransportFailed`.
    FetchWorker { url: String },
    /// Issue an HTTP POST of `body` to `url`, with JSON content-type and
    /// accept headers; answer with `Event::Blocks` holding the decoded
    /// response, `Event::MalformedBlocks`, or `Event::TransportFailed`.
    QueryBlocks { url: String, body: String },
    /// Hand `block` to the sink; answer with `Event::Delivered` or
    /// `Event::DeliveryFailed`.
    Deliver { block: Block },
    /// Pause for `seconds` seconds; answer with `Event::Waited`.
    Wait { seconds: u64 },
}

/// The outcome of the engine's last action, fed back to it.
#[derive(Debug)]
pub enum Event {
    /// The body of a successful GET response.
    Response(Vec<u8>),
    /// The decoded body of a successful POST response: the blocks of the
    /// returned JSON array, in the order received.
    Blocks(Vec<Block>),
    /// The POST response body was not a valid JSON array of blocks.
    MalformedBlocks,
    /// The request could not be sent or no response was received.
    TransportFailed,
    /// The sink accepted the block.
    Delivered,
    /// The sink is gone; the block could not be delivered.
    DeliveryFailed,
    /// The pause ended. Feeding this to a fresh engine starts its session.
    Waited,
}

/// Where the engine stands inside a polling cycle.
#[derive(Clone, Copy, Debug)]
pub enum Phase {
    /// Pausing between cycles; also the state of a fresh engine.
    Waiting,
    /// The current frontier height was requested.
    AwaitHeight,
    /// The worker address for `height` was requested; `frontier` is where
    /// the current cycle ends.
    AwaitWorker { frontier: u64, height: u64 },
    /// The block query for `height` was posted to its worker.
    AwaitBlocks { frontier: u64, height: u64 },
    /// A block of `height` is with the sink; the rest of the engine's
    /// `pending` queue follows.
    Delivering { frontier: u64, height: u64 },
    /// The session ended with `error`; every further step returns it again.
    Failed { error: ClientError },
}

/// The first height of the first cycle: the frontier itself for `Latest`,
/// the explicit height for `Since`.
pub open spec fn resolve_start(start: StartHeight, frontier: u64) -> u64 {
    match start {
        StartHeight::Latest => frontier,
        StartHeight::Since(h) => h,
    }
}

/// The heights `lo..=hi` in ascending order; empty when `lo > hi`.
pub open spec fn range_seq(lo: int, hi: int) -> Seq<u64> {
    if lo > hi {
        Seq::empty()
    } else {
        Seq::new((hi - lo + 1) as nat, |i: int| (lo + i) as u64)
    }
}

/// The first height of the cycle whose frontier is the last of `fs`: the
/// resolved start height in the first cycle, one past the previous frontier
/// in every later one.
pub open spec fn cycle_start(start: StartHeight, fs: Seq<u64>) -> int
    recommends
        fs.len() > 0,
{
    if fs.len() == 1 {
        resolve_start(start, fs[0]) as int
    } else {
        fs[fs.len() - 2] + 1
    }
}

/// The heights a session fetches and delivers, in order, when the frontier
/// heights it observes are `fs`: the first cycle covers the resolved start
/// height up to the first frontier, and each later cycle the heights after
/// the previous frontier up to its own.
pub open spec fn planned(start: StartHeight, fs: Seq<u64>) -> Seq<u64>
    decreases fs.len(),
{
    if fs.len() == 0 {
        Seq::empty()
    } else {
        planned(start, fs.drop_last()) + range_seq(cycle_start(start, fs), fs.last() as int)
    }
}

/// The streaming engine: the decision core of one streaming session.
///
/// The host performs each returned [`Action`] and feeds the outcome back as
/// an [`Event`]; the engine never touches the network or the sink itself.
pub struct Engine {
    /// The serialized base address of the archive service.
    pub base: String,
    /// How the first cycle's starting height is chosen.
    pub start: StartHeight,
    /// The frontier observed by the last completed cycle, if any.
    pub last_frontier: Option<u64>,
    /// Where the engine stands.
    pub phase: Phase,
    /// The blocks of the height being delivered, in the order received.
    pub pending: Vec<Block>,
    /// The index into `pending` of the block now with the sink.
    pub next: usize,
    /// All frontier heights observed so far, in order.
    pub frontiers: Ghost<Seq<u64>>,
    /// All heights whose blocks were fully delivered, in order.
    pub completed: Ghost<Seq<u64>>,
}

/// The engine moved from `pre` into the failed phase with `error`, changing
/// nothing else: no height was recorded or delivered.
pub open spec fn failed_from(pre: Engine, post: Engine, error: ClientError) -> bool {
    &&& post.phase == (Phase::Failed { error })
    &&& post.base == pre.base
    &&& post.start == pre.start
    &&& post.last_frontier == pre.last_frontier
    &&& post.pending == pre.pending
    &&& post.next == pre.next
    &&& post.frontiers == pre.frontiers
    &&& post.completed == pre.completed
}

/// The engine finished height `h` in a cycle bounded by frontier `f`:
/// it records `h` as completed and either asks for the next height's worker
/// (when `h < f`) or closes the cycle and pauses.
pub open spec fn advanced(
    pre: Engine,
    post: Engine,
    r: Result<Action, ClientError>,
    f: u64,
    h: u64,
) -> bool {
    &&& post.base == pre.base
    &&& post.start == pre.start
    &&& post.pending == pre.pending
    &&& post.next == pre.next
    &&& if h < f {
        match parsed_url(worker_endpoint(pre.base@, (h + 1) as u64)) {
            Some(u) => {
                &&& r matches Ok(Action::FetchWorker { url }) && url@ == u
                &&& post.phase == (Phase::AwaitWorker { frontier: f, height: (h + 1) as u64 })
                &&& post.completed@ == pre.completed@.push(h)
                &&& post.frontiers == pre.frontiers
                &&& post.last_frontier == pre.last_frontier
            },
            None => r == Err::<Action, ClientError>(ClientError::UrlDecoding) && failed_from(
                pre,
                post,
                ClientError::UrlDecoding,
            ),
        }
    } else {
        &&& r == Ok::<Action, ClientError>(Action::Wait { seconds: CYCLE_PAUSE_SECONDS as u64 })
        &&& post.phase is Waiting
        &&& post.completed@ == pre.completed@.push(h)
        &&& post.frontiers == pre.frontiers
        &&& post.last_frontier == Some(f)
    }
}

impl Engine {
    /// In a phase between heights, every observed cycle is fully delivered
    /// and the recorded last frontier is the last observed one.
    pub open spec fn quiescent(self) -> bool {
        &&& self.completed@ == planned(self.start, self.frontiers@)
        &&& match self.last_frontier {
            None => self.frontiers@.len() == 0,
            Some(lf) => self.frontiers@.len() > 0 && lf == self.frontiers@.last(),
        }
    }

    /// Inside a cycle working on `height` below `frontier`: the cycle's
    /// frontier is the last observed; every height of the cycle before
    /// `height` is delivered, after all completed cycles.
    pub open spec fn midcycle(self, frontier: u64, height: u64) -> bool {
        let fs = self.frontiers@;
        &&& fs.len() > 0
        &&& fs.last() == frontier
        &&& cycle_start(self.start, fs) <= height <= frontier
        &&& self.completed@ == planned(self.start, fs.drop_last()) + range_seq(
            cycle_start(self.start, fs),
            height - 1,
        )
        &&& match self.last_frontier {
            None => fs.len() == 1,
            Some(lf) => fs.len() > 1 && lf == fs[fs.len() - 2],
        }
    }

    /// The engine's invariant, tying its phase to what it has delivered.
    pub open spec fn wf(self) -> bool {
        match self.phase {
            Phase::Waiting => self.quiescent(),
            Phase::AwaitHeight => self.quiescent(),
            Phase::AwaitWorker { frontier, height } => self.midcycle(frontier, height),
            Phase::AwaitBlocks { frontier, height } => self.midcycle(frontier, height),
            Phase::Delivering { frontier, height } => self.midcycle(frontier, height)
                && self.next < self.pending@.len(),
            Phase::Failed { .. } => true,
        }
    }

    /// Which events can answer the engine's outstanding action.
    pub open spec fn accepts(self, event: Event) -> bool {
        match self.phase {
            Phase::Waiting => event is Waited,
            Phase::AwaitHeight => event is Response || event is TransportFailed,
            Phase::AwaitWorker { .. } => event is Response || event is TransportFailed,
            Phase::AwaitBlocks { .. } => event is Blocks || event is MalformedBlocks
                || event is TransportFailed,
            Phase::Delivering { .. } => event is Delivered || event is DeliveryFailed,
            Phase::Failed { .. } => true,
        }
    }

    /// The first height the next cycle covers when it observes frontier `f`.
    pub open spec fn next_start(self, f: u64) -> int {
        match self.last_frontier {
            Some(lf) => lf + 1,
            None => resolve_start(self.start, f) as int,
        }
    }

    /// A fresh engine for one session against the service at `base`: no
    /// frontier observed, nothing delivered. The session begins when the
    /// host feeds `Event::Waited`.
    pub fn new(base: &BaseUrl, start: StartHeight) -> (r: Engine)
        ensures
            r.wf(),
            r.base@ == base.text@,
            r.start == start,
            r.last_frontier is None,
            r.phase is Waiting,
            r.frontiers@ == Seq::<u64>::empty(),
            r.completed@ == Seq::<u64>::empty(),
    {
        Engine {
            base: base.text.clone(),
            start: start,
            last_frontier: None,
            phase: Phase::Waiting,
            pending: Vec::new(),
            next: 0,
            frontiers: Ghost(Seq::empty()),
            completed: Ghost(Seq::empty()),
        }
    }

    /// Moves into the failed phase and returns `error`; nothing else changes.
    fn fail(&mut self, error: ClientError) -> (r: Result<Action, ClientError>)
        ensures
            final(self).wf(),
            r == Err::<Action, ClientError>(error),
            failed_from(*old(self), *final(self), error),
    {
        self.phase = Phase::Failed { error };
        Err(error)
    }

    /// Finishes height `h` of the cycle bounded by frontier `f`.
    fn advance_height(&mut self, f: u64, h: u64) -> (r: Result<Action, ClientError>)
        requires
            old(self).midcycle(f, h),
        ensures
            final(self).wf(),
            advanced(*old(self), *final(self), r, f, h),
    {
        let ghost fs = self.frontiers@;
        let ghost cs = cycle_start(self.start, fs);
        if h < f {
            let ep = build_worker_endpoint(self.base.as_str(), h + 1);
            match parse_url_text(ep.as_str()) {
                Some(u) => {
                    proof {
                        lemma_range_snoc(cs, h as int);
                        assert((planned(self.start, fs.drop_last()) + range_seq(cs, h - 1)).push(h)
                            =~= planned(self.start, fs.drop_last()) + range_seq(cs, h as int));
                    }
                    self.completed = Ghost(self.completed@.push(h));
                    self.phase = Phase::AwaitWorker { frontier: f, height: h + 1 };
                    Ok(Action::FetchWorker { url: u })
                },
                None => self.fail(ClientError::UrlDecoding),
            }
        } else {
            proof {
                lemma_range_snoc(cs, h as int);
                assert((planned(self.start, fs.drop_last()) + range_seq(cs, h - 1)).push(h)
                    =~= planned(self.start, fs.drop_last()) + range_seq(cs, h as int));
                assert(planned(self.start, fs) == planned(self.start, fs.drop_last()) + range_seq(
                    cs,
                    fs.last() as int,
                ));
            }
            self.completed = Ghost(self.completed@.push(h));
            self.last_frontier = Some(f);
            self.phase = Phase::Waiting;
            Ok(Action::Wait { seconds: CYCLE_PAUSE_SECONDS })
        }
    }

    /// One step of the session: consumes the outcome of the last action and
    /// decides the next one, or ends the session with the error it keeps
    /// returning from then on.
    ///
    /// The step is exactly the specification below: in particular, a cycle
    /// whose frontier has not advanced past the watermark delivers nothing
    /// and does not fail; a body that is not UTF-8 where text is expected,
    /// a malformed height, a malformed block array, a failed request and a
    /// failed delivery each end the session at once, delivering nothing
    /// further.
    pub fn on_event(&mut self, event: Event) -> (r: Result<Action, ClientError>)
        requires
            old(self).wf(),
            old(self).accepts(event),
        ensures
            final(self).wf(),
            final(self).base == old(self).base,
            final(self).start == old(self).start,
            // a failed session stays failed and keeps returning its error
            old(self).phase matches Phase::Failed { error } ==> (r == Err::<
                Action,
                ClientError,
            >(error) && *final(self) == *old(self)),
            // a transport failure is fatal wherever a response was owed
            (old(self).phase is AwaitHeight || old(self).phase is AwaitWorker || old(
                self,
            ).phase is AwaitBlocks) && event is TransportFailed ==> r == Err::<
                Action,
                ClientError,
            >(ClientError::HttpRequest) && failed_from(
                *old(self),
                *final(self),
                ClientError::HttpRequest,
            ),
            // waking up: ask the service for its current frontier height
            old(self).phase is Waiting ==> match parsed_url(height_endpoint(old(self).base@)) {
                Some(u) => {
                    &&& r matches Ok(Action::FetchHeight { url }) && url@ == u
                    &&& final(self).phase is AwaitHeight
                    &&& final(self).last_frontier == old(self).last_frontier
                    &&& final(self).frontiers == old(self).frontiers
                    &&& final(self).completed == old(self).completed
                },
                None => r == Err::<Action, ClientError>(ClientError::UrlDecoding) && failed_from(
                    *old(self),
                    *final(self),
                    ClientError::UrlDecoding,
                ),
            },
            // the height response: parse it, then open the cycle it bounds,
            // or pause again when it has nothing new
            old(self).phase is AwaitHeight ==> (event matches Event::Response(b) ==> match utf8_of(
                b@,
            ) {
                None => r == Err::<Action, ClientError>(ClientError::Utf8Decoding) && failed_from(
                    *old(self),
                    *final(self),
                    ClientError::Utf8Decoding,
                ),
                Some(txt) => if !parses_as_u64(txt) {
                    r == Err::<Action, ClientError>(ClientError::IntegerDecoding) && failed_from(
                        *old(self),
                        *final(self),
                        ClientError::IntegerDecoding,
                    )
                } else {
                    let f = parsed_u64(txt) as u64;
                    if old(self).next_start(f) > f {
                        // nothing new since the watermark: a no-op cycle
                        &&& r == Ok::<Action, ClientError>(Action::Wait {
                            seconds: CYCLE_PAUSE_SECONDS as u64,
                        })
                        &&& final(self).phase is Waiting
                        &&& final(self).frontiers@ == old(self).frontiers@.push(f)
                        &&& final(self).completed == old(self).completed
                        &&& final(self).last_frontier == Some(f)
                    } else {
                        let h0 = old(self).next_start(f) as u64;
                        match parsed_url(worker_endpoint(old(self).base@, h0)) {
                            Some(u) => {
                                &&& r matches Ok(Action::FetchWorker { url }) && url@ == u
                                &&& final(self).phase == (Phase::AwaitWorker {
                                    frontier: f,
                                    height: h0,
                                })
                                &&& final(self).frontiers@ == old(self).frontiers@.push(f)
                                &&& final(self).completed == old(self).completed
                                &&& final(self).last_frontier == old(self).last_frontier
                            },
                            None => r == Err::<Action, ClientError>(ClientError::UrlDecoding)
                                && failed_from(*old(self), *final(self), ClientError::UrlDecoding),
                        }
                    }
                },
            }),
            // the worker response: its text is the address to query
            old(self).phase matches Phase::AwaitWorker { frontier, height } ==> (
            event matches Event::Response(b) ==> match utf8_of(b@) {
                None => r == Err::<Action, ClientError>(ClientError::Utf8Decoding) && failed_from(
                    *old(self),
                    *final(self),
                    ClientError::Utf8Decoding,
                ),
                Some(w) => {
                    &&& r matches Ok(Action::QueryBlocks { url, body }) && url@ == w && body@
                        == query_body(height)
                    &&& final(self).phase == (Phase::AwaitBlocks { frontier, height })
                    &&& final(self).frontiers == old(self).frontiers
                    &&& final(self).completed == old(self).completed
                    &&& final(self).last_frontier == old(self).last_frontier
                },
            }),
            // the decoded blocks: deliver them in order; none means the
            // height is done at once
            old(self).phase matches Phase::AwaitBlocks { frontier, height } ==> (
            event matches Event::Blocks(v) ==> if v@.len() == 0 {
                advanced(*old(self), *final(self), r, frontier, height)
            } else {
                &&& r matches Ok(Action::Deliver { block }) && block == v@[0]
                &&& final(self).phase == (Phase::Delivering { frontier, height })
                &&& final(self).pending@ == v@
                &&& final(self).next == 0
                &&& final(self).frontiers == old(self).frontiers
                &&& final(self).completed == old(self).completed
                &&& final(self).last_frontier == old(self).last_frontier
            }),
            (old(self).phase is AwaitBlocks) && event is MalformedBlocks ==> r == Err::<
                Action,
                ClientError,
            >(ClientError::JsonDecoding) && failed_from(
                *old(self),
                *final(self),
                ClientError::JsonDecoding,
            ),
            // a delivery went through: send the next block, or finish the height
            old(self).phase matches Phase::Delivering { frontier, height } ==> (
            event is Delivered ==> if old(self).next + 1 < old(self).pending@.len() {
                &&& r matches Ok(Action::Deliver { block }) && block == old(self).pending@[old(
                    self,
                ).next + 1]
                &&& final(self).phase == old(self).phase
                &&& final(self).pending == old(self).pending
                &&& final(self).next == old(self).next + 1
                &&& final(self).frontiers == old(self).frontiers
                &&& final(self).completed == old(self).completed
                &&& final(self).last_frontier == old(self).last_frontier
            } else {
                advanced(*old(self), *final(self), r, frontier, height)
            }),
            // a failed delivery is terminal
            (old(self).phase is Delivering) && event is DeliveryFailed ==> r == Err::<
                Action,
                ClientError,
            >(ClientError::SenderError) && failed_from(
                *old(self),
                *final(self),
                ClientError::SenderError,
            ),
    {
        let phase = self.phase;
        match phase {
            Phase::Failed { error } => Err(error),
            Phase::Waiting => {
                let ep = build_height_endpoint(self.base.as_str());
                match parse_url_text(ep.as_str()) {
                    Some(u) => {
                        self.phase = Phase::AwaitHeight;
                        Ok(Action::FetchHeight { url: u })
                    },
                    None => self.fail(ClientError::UrlDecoding),
                }
            },
            Phase::AwaitHeight => match event {
                Event::TransportFailed => self.fail(ClientError::HttpRequest),
                Event::Response(bytes) => {
                    match utf8_decode(bytes) {
                        None => self.fail(ClientError::Utf8Decoding),
                        Some(txt) => match parse_u64(txt.as_str()) {
                            Err(_) => self.fail(ClientError::IntegerDecoding),
                            Ok(f) => {
                                let stale = match self.last_frontier {
                                    Some(lf) => f <= lf,
                                    None => match self.start {
                                        StartHeight::Latest => false,
                                        StartHeight::Since(h) => h > f,
                                    },
                                };
                                let ghost fs = self.frontiers@;
                                if stale {
                                    self.frontiers = Ghost(fs.push(f));
                                    self.last_frontier = Some(f);
                                    self.phase = Phase::Waiting;
                                    proof {
                                        assert(fs.push(f).drop_last() =~= fs);
                                        assert(self.completed@ + Seq::<u64>::empty()
                                            =~= self.completed@);
                                    }
                                    Ok(Action::Wait { seconds: CYCLE_PAUSE_SECONDS })
                                } else {
                                    let h0 = match self.last_frontier {
                                        Some(lf) => lf + 1,
                                        None => match self.start {
                                            StartHeight::Latest => f,
                                            StartHeight::Since(h) => h,
                                        },
                                    };
                                    let ep = build_worker_endpoint(self.base.as_str(), h0);
                                    match parse_url_text(ep.as_str()) {
                                        Some(u) => {
                                            self.frontiers = Ghost(fs.push(f));
                                            self.phase = Phase::AwaitWorker {
                                                frontier: f,
                                                height: h0,
                                            };
                                            proof {
                                                assert(fs.push(f).drop_last() =~= fs);
                                                assert(self.completed@ + range_seq(
                                                    h0 as int,
                                                    h0 - 1,
                                                ) =~= self.completed@);
                                            }
                                            Ok(Action::FetchWorker { url: u })
                                        },
                                        None => self.fail(ClientError::UrlDecoding),
                                    }
                                }
                            },
                        },
                    }
                },
                _ => unreached(),
            },
            Phase::AwaitWorker { frontier, height } => match event {
                Event::TransportFailed => self.fail(ClientError::HttpRequest),
                Event::Response(bytes) => match utf8_decode(bytes) {
                    None => self.fail(ClientError::Utf8Decoding),
                    Some(w) => {
                        let body = build_query_body(height);
                        self.phase = Phase::AwaitBlocks { frontier, height };
                        Ok(Action::QueryBlocks { url: w, body })
                    },
                },
                _ => unreached(),
            },
            Phase::AwaitBlocks { frontier, height } => match event {
                Event::TransportFailed => self.fail(ClientError::HttpRequest),
                Event::MalformedBlocks => self.fail(ClientError::JsonDecoding),
                Event::Blocks(v) => {
                    if v.len() == 0 {
                        self.advance_height(frontier, height)
                    } else {
                        let block = v[0].clone();
                        self.pending = v;
                        self.next = 0;
                        self.phase = Phase::Delivering { frontier, height };
                        Ok(Action::Deliver { block })
                    }
                },
                _ => unreached(),
            },
            Phase::Delivering { frontier, height } => match event {
                Event::DeliveryFailed => self.fail(ClientError::SenderError),
                Event::Delivered => {
                    let len = self.pending.len();
                    proof {
                        assert(self.next < self.pending@.len());
                    }
                    if self.next + 1 < len {
                        self.next = self.next + 1;
                        let block = self.pending[self.next].clone();
                        Ok(Action::Deliver { block })
                    } else {
                        self.advance_height(frontier, height)
                    }
                },
                _ => unreached(),
            },
        }
    }
}

/// Appending one more height to a nonempty ascending range extends it by one.
proof fn lemma_range_snoc(lo: int, hi: int)
    requires
        lo <= hi,
        0 <= lo,
        hi <= u64::MAX,
    ensures
        range_seq(lo, hi) == range_seq(lo, hi - 1).push(hi as u64),
{
    assert(range_seq(lo, hi) =~= range_seq(lo, hi - 1).push(hi as u64));
}

/// Ordering law, on the plan: when the observed frontier heights never
/// decrease, the heights a session delivers are consecutive integers — the
/// k-th delivered height is the first plus `k`, so the sequence is strictly
/// increasing, without gaps and without repeats; and when anything was
/// delivered, the last delivered height is the last observed frontier.
pub proof fn lemma_planned_contiguous(start: StartHeight, fs: Seq<u64>)
    requires
        forall|i: int| 0 <= i < fs.len() - 1 ==> #[trigger] fs[i] <= fs[i + 1],
    ensures
        forall|k: int|
            0 <= k < planned(start, fs).len() ==> #[trigger] planned(start, fs)[k] == planned(
                start,
                fs,
            )[0] + k,
        planned(start, fs).len() > 0 ==> planned(start, fs).last() == fs.last(),
    decreases fs.len(),
{
    if fs.len() > 0 {
        let prev = fs.drop_last();
        lemma_planned_contiguous(start, prev);
        let p = planned(start, prev);
        let cs = cycle_start(start, fs);
        let rng = range_seq(cs, fs.last() as int);
        assert(planned(start, fs) == p + rng);
        if p.len() == 0 {
            assert(planned(start, fs) =~= rng);
        } else {
            assert(prev.len() > 0);
            assert(fs.len() >= 2);
            assert(p.last() == prev.last());
            assert(prev.last() == fs[fs.len() - 2]);
            assert(cs == fs[fs.len() - 2] + 1);
            assert(p.last() == p[0] + (p.len() - 1));
            if rng.len() == 0 {
                assert(planned(start, fs) =~= p);
                assert(fs.last() <= fs[fs.len() - 2]);
                assert(fs[fs.len() - 2] <= fs.last());
            } else {
                assert(forall|k: int|
                    0 <= k < planned(start, fs).len() ==> #[trigger] planned(start, fs)[k]
                        == planned(start, fs)[0] + k) by {
                    assert(forall|k: int|
                        0 <= k < p.len() ==> #[trigger] (p + rng)[k] == (p + rng)[0] + k);
                    assert(forall|k: int|
                        p.len() <= k < p.len() + rng.len() ==> #[trigger] (p + rng)[k] == rng[k
                            - p.len()]);
                }
            }
        }
    }
}

/// Ordering law, on the engine: whenever an engine stands between two
/// heights and the frontiers it observed never decreased, the heights it
/// has delivered to the sink are exactly consecutive integers in ascending
/// order — no gap, no repeat, no reordering.
pub proof fn lemma_delivered_heights_contiguous(e: Engine)
    requires
        e.wf(),
        e.phase is Waiting || e.phase is AwaitHeight,
        forall|i: int|
            0 <= i < e.frontiers@.len() - 1 ==> #[trigger] e.frontiers@[i] <= e.frontiers@[i + 1],
    ensures
        forall|k: int|
            0 <= k < e.completed@.len() ==> #[trigger] e.completed@[k] == e.completed@[0] + k,
{
    lemma_planned_contiguous(e.start, e.frontiers@);
}

} // verus!
