//! The decisions of one discovery session, as a state machine.
//!
//! The host starts the multicast-DNS daemon, starts the browse subscription,
//! waits for subscription events and tears both down; after each of these it
//! hands the outcome to `Session::step` as an `Event` and performs the `Action`
//! that comes back.
use vstd::prelude::*;
use vstd::string::StringExecFns;
use crate::record::{server_of, DiscoveredServer, ResolutionView, ServerView, ServiceResolution};

verus! {

/// The service type that a session browses for.
pub const SERVICE_TYPE: &'static str = "_orb._tcp.local.";

/// Total time budget of a session, counted from the start of the subscription.
pub const BUDGET_MS: u64 = 3000;

/// Longest single wait for a subscription event.
pub const SLICE_MS: u64 = 500;

#[derive(PartialEq, Eq, Structural, Clone, Copy, Debug)]
pub enum Phase {
    /// The daemon is to be started.
    Starting,
    /// The daemon runs; the subscription is to be started.
    Subscribing,
    /// Waiting for subscription events until the budget is spent.
    Polling,
    /// The budget is spent; the collected servers are the result.
    Finished,
    /// The daemon or the subscription could not be started.
    Failed,
}

/// What the host reports back to the session.
#[derive(Debug)]
pub enum Event {
    /// The daemon started.
    DaemonStarted,
    /// The daemon could not be started, for the given cause.
    DaemonFailed(String),
    /// The browse subscription started; the budget is counted from here.
    BrowseStarted,
    /// The browse subscription could not be started, for the given cause.
    BrowseFailed(String),
    /// A wait ended: with a resolved service, or with anything else (a timeout,
    /// another kind of event, a receive error). The second field is the time
    /// spent since the subscription started, in milliseconds.
    Polled(Option<ServiceResolution>, u64),
}

/// What the session asks the host to do next.
#[derive(Debug)]
pub enum Action {
    /// Start browsing for `SERVICE_TYPE`.
    Browse,
    /// Wait for the next subscription event, at most this many milliseconds.
    Wait(u64),
    /// Stop browsing and shut the daemon down, ignoring errors of either;
    /// the collected servers are then the result.
    Teardown,
    /// Fail with this message; nothing is to be torn down.
    Fail(String),
    /// Shut the daemon down, ignoring errors, and fail with this message.
    Abort(String),
    /// The event does not belong to the current phase: nothing to do.
    Ignore,
}

pub struct SessionView {
    pub phase: Phase,
    pub servers: Seq<ServerView>,
}

pub struct Session {
    phase: Phase,
    servers: Vec<DiscoveredServer>,
    /// Every resolution handed to the session, in order.
    resolved: Ghost<Seq<ResolutionView>>,
}

/// Some record of `out` has this `url`.
pub open spec fn has_url(out: Seq<ServerView>, url: Seq<char>) -> bool {
    exists|i: int| 0 <= i < out.len() && out[i].url == url
}

/// `s` appended to `out` unless a record of `out` has its `url` already.
pub open spec fn add_server(out: Seq<ServerView>, s: ServerView) -> Seq<ServerView> {
    if has_url(out, s.url) {
        out
    } else {
        out.push(s)
    }
}

/// The records that a sequence of resolutions yields, first seen first.
pub open spec fn collected(events: Seq<ResolutionView>) -> Seq<ServerView>
    decreases events.len(),
{
    if events.len() == 0 {
        Seq::empty()
    } else {
        add_server(collected(events.drop_last()), server_of(events.last()))
    }
}

/// The next wait, `elapsed` milliseconds into the budget: what is left of
/// the budget, but at most one slice.
pub open spec fn wait_ms(elapsed: u64) -> u64
    recommends
        elapsed < BUDGET_MS,
{
    if BUDGET_MS - elapsed < SLICE_MS {
        (BUDGET_MS - elapsed) as u64
    } else {
        SLICE_MS
    }
}

/// The message of a failed daemon start.
pub open spec fn init_message(cause: Seq<char>) -> Seq<char> {
    "mdns init: "@ + cause
}

/// The message of a failed subscription start.
pub open spec fn browse_message(cause: Seq<char>) -> Seq<char> {
    "mdns browse: "@ + cause
}

/// One step of a session: from `pre` and resolution log `log`, `event` leads
/// to `post` with log `log2` and the action `r`.
pub open spec fn step_post(
    pre: SessionView,
    log: Seq<ResolutionView>,
    event: Event,
    post: SessionView,
    log2: Seq<ResolutionView>,
    r: Action,
) -> bool {
    match (pre.phase, event) {
        (Phase::Starting, Event::DaemonStarted) => post == SessionView {
            phase: Phase::Subscribing,
            ..pre
        } && log2 == log && r == Action::Browse,
        (Phase::Starting, Event::DaemonFailed(cause)) => post == SessionView {
            phase: Phase::Failed,
            ..pre
        } && log2 == log && (r is Fail && r->Fail_0@ == init_message(cause@)),
        (Phase::Subscribing, Event::BrowseStarted) => post == SessionView {
            phase: Phase::Polling,
            ..pre
        } && log2 == log && r == Action::Wait(wait_ms(0)),
        (Phase::Subscribing, Event::BrowseFailed(cause)) => post == SessionView {
            phase: Phase::Failed,
            ..pre
        } && log2 == log && (r is Abort && r->Abort_0@ == browse_message(cause@)),
        (Phase::Polling, Event::Polled(outcome, elapsed)) => {
            &&& match outcome {
                Some(res) => post.servers == add_server(pre.servers, server_of(res@)) && log2
                    == log.push(res@),
                None => post.servers == pre.servers && log2 == log,
            }
            &&& if elapsed >= BUDGET_MS {
                post.phase == Phase::Finished && r == Action::Teardown
            } else {
                post.phase == Phase::Polling && r == Action::Wait(wait_ms(elapsed))
            }
        },
        _ => post == pre && log2 == log && r == Action::Ignore,
    }
}

/// Resolution `k` is the first of `events` that yields its url.
pub open spec fn first_with_url(events: Seq<ResolutionView>, k: int) -> bool {
    &&& 0 <= k < events.len()
    &&& forall|m: int| 0 <= m < k ==> server_of(events[m]).url != server_of(events[k]).url
}

/// `s` is the record of a resolution that is the first of `events` to yield its url.
pub open spec fn from_first(events: Seq<ResolutionView>, s: ServerView) -> bool {
    exists|k: int| first_with_url(events, k) && s == server_of(events[k])
}

/// Whatever resolutions a session receives, its servers hold exactly one
/// record per url that they yield, and that record is the one of the first
/// resolution that yields the url.
pub proof fn lemma_collected_first_per_url(events: Seq<ResolutionView>)
    ensures
        forall|i: int, j: int|
            0 <= i < j < collected(events).len() ==> collected(events)[i].url
                != collected(events)[j].url,
        forall|k: int| 0 <= k < events.len() ==> has_url(collected(events), server_of(events[k]).url),
        forall|k: int|
            first_with_url(events, k) ==> exists|i: int|
                0 <= i < collected(events).len() && collected(events)[i] == server_of(events[k]),
        forall|i: int|
            0 <= i < collected(events).len() ==> from_first(events, #[trigger] collected(events)[i]),
    decreases events.len(),
{
    if events.len() > 0 {
        let prev = events.drop_last();
        let n = prev.len() as int;
        let s = server_of(events.last());
        let pout = collected(prev);
        let out = collected(events);
        lemma_collected_first_per_url(prev);
        assert forall|k: int| 0 <= k < n implies first_with_url(events, k) == first_with_url(prev, k) by {
            assert(prev[k] == events[k]);
            assert forall|m: int| 0 <= m < k implies prev[m] == events[m] by {}
        }
        if has_url(pout, s.url) {
            assert(out == pout);
            assert(!first_with_url(events, n)) by {
                let i = choose|i: int| 0 <= i < pout.len() && pout[i].url == s.url;
                assert(from_first(prev, pout[i]));
                let k = choose|k: int| first_with_url(prev, k) && pout[i] == server_of(prev[k]);
                assert(server_of(events[k]).url == server_of(events[n]).url);
            }
            assert forall|k: int| 0 <= k < events.len() implies has_url(out, server_of(events[k]).url) by {
                if k < n {
                    assert(prev[k] == events[k]);
                }
            }
            assert forall|k: int| first_with_url(events, k) implies exists|i: int|
                0 <= i < out.len() && out[i] == server_of(events[k]) by {
                assert(prev[k] == events[k]);
            }
            assert forall|i: int| 0 <= i < out.len() implies from_first(events, out[i]) by {
                assert(from_first(prev, pout[i]));
                let k = choose|k: int| first_with_url(prev, k) && pout[i] == server_of(prev[k]);
                assert(prev[k] == events[k]);
            }
        } else {
            assert(out == pout.push(s));
            assert(first_with_url(events, n)) by {
                assert forall|m: int| 0 <= m < n implies server_of(events[m]).url != s.url by {
                    assert(prev[m] == events[m]);
                    assert(has_url(pout, server_of(prev[m]).url));
                }
            }
            assert forall|k: int| 0 <= k < events.len() implies has_url(out, server_of(events[k]).url) by {
                if k < n {
                    assert(prev[k] == events[k]);
                    let i = choose|i: int| 0 <= i < pout.len() && pout[i].url == server_of(prev[k]).url;
                    assert(out[i] == pout[i]);
                } else {
                    assert(out[pout.len() as int] == s);
                }
            }
            assert forall|k: int| first_with_url(events, k) implies exists|i: int|
                0 <= i < out.len() && out[i] == server_of(events[k]) by {
                if k < n {
                    assert(prev[k] == events[k]);
                    let i = choose|i: int| 0 <= i < pout.len() && pout[i] == server_of(prev[k]);
                    assert(out[i] == pout[i]);
                } else {
                    assert(out[pout.len() as int] == s);
                }
            }
            assert forall|i: int| 0 <= i < out.len() implies from_first(events, out[i]) by {
                if i < pout.len() {
                    assert(from_first(prev, pout[i]));
                    let k = choose|k: int| first_with_url(prev, k) && pout[i] == server_of(prev[k]);
                    assert(prev[k] == events[k]);
                    assert(out[i] == pout[i]);
                } else {
                    assert(out[i] == server_of(events[n]));
                }
            }
            assert forall|i: int, j: int| 0 <= i < j < out.len() implies out[i].url != out[j].url by {
                if j == pout.len() {
                    assert(out[i] == pout[i]);
                } else {
                    assert(out[i] == pout[i] && out[j] == pout[j]);
                }
            }
        }
    }
}

/// The servers of a session are the records that the resolutions handed to
/// it yield, one per url, first seen first.
pub proof fn lemma_servers_are_collected(s: Session)
    requires
        s.wf(),
    ensures
        s@.servers == collected(s.resolutions()),
{
}

/// A session that has been handed no resolution has found no server.
pub proof fn lemma_nothing_resolved_nothing_found(s: Session)
    requires
        s.wf(),
        s.resolutions().len() == 0,
    ensures
        s@.servers.len() == 0,
{
}

/// While polling, no event makes a session fail; a wait that ended without a
/// resolution leaves the log of resolutions and the servers as they were.
pub proof fn lemma_polling_never_fails(
    pre: SessionView,
    log: Seq<ResolutionView>,
    event: Event,
    post: SessionView,
    log2: Seq<ResolutionView>,
    r: Action,
)
    requires
        pre.phase == Phase::Polling,
        step_post(pre, log, event, post, log2, r),
    ensures
        !(r is Fail) && !(r is Abort),
        post.phase == Phase::Polling || post.phase == Phase::Finished,
        (event is Polled && event->Polled_0 is None) ==> log2 == log && post.servers == pre.servers,
{
}

/// A subscription that delivers no resolution ends the session with an empty
/// list and never with a failure: in a polling session that has found nothing,
/// a wait that ended without a resolution leaves nothing found and asks for
/// another wait, or for teardown once the budget is spent.
pub proof fn lemma_silent_subscription_finds_nothing(
    pre: SessionView,
    log: Seq<ResolutionView>,
    elapsed: u64,
    post: SessionView,
    log2: Seq<ResolutionView>,
    r: Action,
)
    requires
        pre.phase == Phase::Polling,
        pre.servers.len() == 0,
        step_post(pre, log, Event::Polled(None, elapsed), post, log2, r),
    ensures
        post.servers.len() == 0,
        r is Wait || r is Teardown,
        r is Teardown <==> elapsed >= BUDGET_MS,
{
}

/// A daemon that fails to start makes the session fail at once, with nothing
/// to tear down.
pub proof fn lemma_init_failure_fails(
    pre: SessionView,
    log: Seq<ResolutionView>,
    cause: String,
    post: SessionView,
    log2: Seq<ResolutionView>,
    r: Action,
)
    requires
        pre.phase == Phase::Starting,
        step_post(pre, log, Event::DaemonFailed(cause), post, log2, r),
    ensures
        r is Fail,
        r->Fail_0@ == init_message(cause@),
        post.phase == Phase::Failed,
        post.servers == pre.servers,
{
}

/// A failed session stays failed and asks for nothing more: no wait, no
/// teardown.
pub proof fn lemma_failed_is_final(
    pre: SessionView,
    log: Seq<ResolutionView>,
    event: Event,
    post: SessionView,
    log2: Seq<ResolutionView>,
    r: Action,
)
    requires
        pre.phase == Phase::Failed,
        step_post(pre, log, event, post, log2, r),
    ensures
        post == pre,
        log2 == log,
        r == Action::Ignore,
{
}

impl View for Session {
    type V = SessionView;

    closed spec fn view(&self) -> SessionView {
        SessionView { phase: self.phase, servers: self.servers@.map_values(|s: DiscoveredServer| s@) }
    }
}

impl Session {
    /// The resolutions handed to this session so far, in order.
    pub closed spec fn resolutions(&self) -> Seq<ResolutionView> {
        self.resolved@
    }

    /// The servers of a session are those that its resolutions yield, and no
    /// resolution comes before polling starts.
    pub closed spec fn wf(&self) -> bool {
        &&& self@.servers == collected(self.resolutions())
        &&& (self.phase == Phase::Starting || self.phase == Phase::Subscribing)
            ==> self.resolutions().len() == 0
    }

    /// A session whose daemon is yet to be started.
    pub fn new() -> (s: Session)
        ensures
            s.wf(),
            s@.phase == Phase::Starting,
            s@.servers == Seq::<ServerView>::empty(),
            s.resolutions() == Seq::<ResolutionView>::empty(),
    {
        let s = Session { phase: Phase::Starting, servers: Vec::new(), resolved: Ghost(Seq::empty()) };
        proof {
            assert(s@.servers =~= Seq::<ServerView>::empty());
        }
        s
    }

    pub fn phase(&self) -> (p: Phase)
        ensures
            p == self@.phase,
    {
        self.phase
    }

    /// The servers collected so far, first seen first.
    pub fn servers(&self) -> (v: &Vec<DiscoveredServer>)
        ensures
            v@.map_values(|s: DiscoveredServer| s@) == self@.servers,
    {
        &self.servers
    }

    /// The servers collected, first seen first; the session ends here.
    pub fn into_servers(self) -> (v: Vec<DiscoveredServer>)
        ensures
            v@.map_values(|s: DiscoveredServer| s@) == self@.servers,
    {
        self.servers
    }

    /// Appends the record of `res` unless a collected server has its url.
    fn collect(&mut self, res: &ServiceResolution)
        requires
            old(self).wf(),
            old(self).phase == Phase::Polling,
        ensures
            final(self).wf(),
            final(self).phase == Phase::Polling,
            final(self)@.servers == add_server(old(self)@.servers, server_of(res@)),
            final(self).resolutions() == old(self).resolutions().push(res@),
    {
        let server = DiscoveredServer::from_resolution(res);
        let ghost out = old(self)@.servers;
        let mut i: usize = 0;
        let mut seen = false;
        while i < self.servers.len()
            invariant
                i <= self.servers.len(),
                self == old(self),
                out == self@.servers,
                seen ==> has_url(out, server@.url),
                !seen ==> forall|j: int| 0 <= j < i ==> out[j].url != server@.url,
            decreases self.servers.len() - i,
        {
            if self.servers[i].url == server.url {
                proof {
                    assert(out[i as int].url == server@.url);
                }
                seen = true;
            }
            i = i + 1;
        }
        let ghost log = self.resolved@.push(res@);
        proof {
            assert(log.drop_last() =~= self.resolved@);
        }
        if !seen {
            self.servers.push(server);
        }
        self.resolved = Ghost(log);
        proof {
            assert(self@.servers =~= add_server(out, server_of(res@)));
        }
    }

    /// Takes the outcome of the host's last operation and says what to do next.
    pub fn step(&mut self, event: Event) -> (r: Action)
        requires
            old(self).wf(),
        ensures
            final(self).wf(),
            step_post(
                old(self)@,
                old(self).resolutions(),
                event,
                final(self)@,
                final(self).resolutions(),
                r,
            ),
    {
        match (self.phase, event) {
            (Phase::Starting, Event::DaemonStarted) => {
                self.phase = Phase::Subscribing;
                Action::Browse
            },
            (Phase::Starting, Event::DaemonFailed(cause)) => {
                self.phase = Phase::Failed;
                let mut m = String::from_str("mdns init: ");
                m.append(cause.as_str());
                Action::Fail(m)
            },
            (Phase::Subscribing, Event::BrowseStarted) => {
                self.phase = Phase::Polling;
                Action::Wait(SLICE_MS)
            },
            (Phase::Subscribing, Event::BrowseFailed(cause)) => {
                self.phase = Phase::Failed;
                let mut m = String::from_str("mdns browse: ");
                m.append(cause.as_str());
                Action::Abort(m)
            },
            (Phase::Polling, Event::Polled(outcome, elapsed)) => {
                match &outcome {
                    Some(res) => self.collect(res),
                    None => {},
                }
                if elapsed >= BUDGET_MS {
                    self.phase = Phase::Finished;
                    Action::Teardown
                } else if BUDGET_MS - elapsed < SLICE_MS {
                    Action::Wait(BUDGET_MS - elapsed)
                } else {
                    Action::Wait(SLICE_MS)
                }
            },
            _ => Action::Ignore,
        }
    }
}

} // verus!
