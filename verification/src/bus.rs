//! What the driver asks of the SPI transport, and how it goes on from what
//! the transport reports.
//!
//! The driver never touches the bus. An operation hands out an [`Exchange`]:
//! a list of requests to be carried out in order. Whoever owns the bus takes
//! the pending request, performs it, and reports how it went; the exchange
//! then decides what comes next. The first failure ends the list. Where the
//! exchange was made with recovery requests, and enough of the list had
//! gone through for them to be needed, they follow the failure.

use crate::hat::{startup_recovery, startup_requests, STARTUP_GUARD};
use vstd::prelude::*;

verus! {

/// One of the two sub-panels, each behind its own chip-select line.
#[derive(Clone, Copy, Debug, PartialEq, Eq, Hash, Structural)]
pub enum Side {
    Left,
    Right,
}

/// The SPI bus that both driver chips sit on.
pub const SPI_BUS: u8 = 0;

/// The SPI mode that the driver chips speak: clock idle low, sampled on the
/// leading edge.
pub const SPI_MODE: u8 = 0;

impl Side {
    /// The chip-select line of the sub-panel.
    pub open spec fn select(self) -> u8 {
        match self {
            Side::Left => 0,
            Side::Right => 1,
        }
    }

    /// The chip-select line of the sub-panel.
    pub fn chip_select(self) -> (line: u8)
        ensures
            line == self.select(),
    {
        match self {
            Side::Left => 0,
            Side::Right => 1,
        }
    }
}

/// Something for the transport to do.
#[derive(Debug, PartialEq, Eq)]
pub enum Request {
    /// Open the connection to a sub-panel's chip.
    Open { side: Side, bus: u8, chip_select: u8, clock_hz: u32, mode: u8 },
    /// Write one frame to a sub-panel's chip, blocking until it is out.
    Write { side: Side, bytes: Vec<u8> },
}

/// A request as a value: the frame by its bytes.
pub enum RequestView {
    Open { side: Side, bus: u8, chip_select: u8, clock_hz: u32, mode: u8 },
    Write { side: Side, bytes: Seq<u8> },
}

impl View for Request {
    type V = RequestView;

    open spec fn view(&self) -> RequestView {
        match *self {
            Request::Open { side, bus, chip_select, clock_hz, mode } => RequestView::Open {
                side,
                bus,
                chip_select,
                clock_hz,
                mode,
            },
            Request::Write { side, bytes } => RequestView::Write { side, bytes: bytes@ },
        }
    }
}

impl Clone for Request {
    fn clone(&self) -> (copy: Request)
        ensures
            copy@ == self@,
    {
        match self {
            Request::Open { side, bus, chip_select, clock_hz, mode } => Request::Open {
                side: *side,
                bus: *bus,
                chip_select: *chip_select,
                clock_hz: *clock_hz,
                mode: *mode,
            },
            Request::Write { side, bytes } => Request::Write { side: *side, bytes: bytes.clone() },
        }
    }
}

/// The requests of a list, each as a value.
pub open spec fn views(requests: Seq<Request>) -> Seq<RequestView> {
    Seq::new(requests.len(), |i: int| requests[i]@)
}

/// The request that opens the connection to `side` at `clock_hz`.
pub open spec fn open_request(side: Side, clock_hz: u32) -> RequestView {
    RequestView::Open { side, bus: SPI_BUS, chip_select: side.select(), clock_hz, mode: SPI_MODE }
}

/// The requests that write `frames` to `side`, one after the other.
pub open spec fn write_requests(side: Side, frames: Seq<Seq<u8>>) -> Seq<RequestView> {
    Seq::new(frames.len(), |i: int| RequestView::Write { side, bytes: frames[i] })
}

/// What the transport reports of the request it was handed.
#[derive(Clone, Copy, Debug, PartialEq, Eq, Structural)]
pub enum Event {
    /// The request was carried out.
    Done,
    /// The transport failed.
    Failed,
}

/// Where an exchange stands, for whoever runs it.
#[derive(Clone, Copy, Debug, PartialEq, Eq, Structural)]
pub enum Status {
    /// A request waits to be performed.
    Pending,
    /// Every request of the list was carried out.
    Completed,
    /// A request failed; what had to follow the failure is over.
    Failed,
}

/// Where an exchange stands within its lists.
#[derive(Clone, Copy, Debug, PartialEq, Eq, Structural)]
pub enum Phase {
    /// Working through the list.
    Forward,
    /// A request failed; working through the recovery requests.
    Recovering,
    Completed,
    Failed,
}

/// An exchange as a value.
pub struct ExchangeView {
    /// The requests to carry out, in order.
    pub steps: Seq<RequestView>,
    /// The requests that follow a failure of step `guard` or a later one.
    pub recovery: Seq<RequestView>,
    pub guard: nat,
    /// The position, in the list being worked through, of the pending request.
    pub cursor: nat,
    pub phase: Phase,
    /// For the exchange that brings the panel up, the clock of the bus in
    /// hertz; for every other exchange, nothing.
    pub startup: Option<u32>,
}

impl ExchangeView {
    /// An exchange of which nothing has been performed yet.
    pub open spec fn fresh(
        steps: Seq<RequestView>,
        guard: nat,
        recovery: Seq<RequestView>,
        startup: Option<u32>,
    ) -> ExchangeView {
        ExchangeView {
            steps,
            recovery,
            guard,
            cursor: 0,
            phase: if steps.len() == 0 {
                Phase::Completed
            } else {
                Phase::Forward
            },
            startup,
        }
    }

    /// An exchange of plain writes and the like: no recovery, and not the
    /// panel's start-up.
    pub open spec fn plain(steps: Seq<RequestView>) -> ExchangeView {
        Self::fresh(steps, 0, Seq::empty(), None)
    }

    /// While a request is pending, the cursor points at it; and an exchange
    /// that says it brings the panel up holds the start-up's requests.
    pub open spec fn wf(self) -> bool {
        &&& self.phase == Phase::Forward ==> self.cursor < self.steps.len()
        &&& self.phase == Phase::Recovering ==> self.cursor < self.recovery.len()
        &&& self.startup matches Some(clock_hz) ==> {
            &&& self.steps == startup_requests(clock_hz)
            &&& self.guard == STARTUP_GUARD
            &&& self.recovery == startup_recovery()
        }
    }

    /// The request that waits to be performed, if any.
    pub open spec fn request(self) -> Option<RequestView> {
        match self.phase {
            Phase::Forward => Some(self.steps[self.cursor as int]),
            Phase::Recovering => Some(self.recovery[self.cursor as int]),
            Phase::Completed => None,
            Phase::Failed => None,
        }
    }

    pub open spec fn status(self) -> Status {
        match self.phase {
            Phase::Forward => Status::Pending,
            Phase::Recovering => Status::Pending,
            Phase::Completed => Status::Completed,
            Phase::Failed => Status::Failed,
        }
    }

    /// The exchange at `phase` and `cursor`, with the same lists.
    pub open spec fn at(self, phase: Phase, cursor: nat) -> ExchangeView {
        ExchangeView { phase, cursor, ..self }
    }

    /// The exchange once the transport has reported `event` of the pending
    /// request. After `Done` the next request of the list is pending, or the
    /// list is over. After `Failed` nothing more of the list is asked for:
    /// the recovery requests follow if the failed step was `guard` or a later
    /// one, and the exchange has failed once they are through or one of them
    /// fails too. An exchange that has come to its end stays as it is.
    pub open spec fn after(self, event: Event) -> ExchangeView {
        match self.phase {
            Phase::Forward => match event {
                Event::Done => if self.cursor + 1 < self.steps.len() {
                    self.at(Phase::Forward, self.cursor + 1)
                } else {
                    self.at(Phase::Completed, self.cursor)
                },
                Event::Failed => if self.cursor >= self.guard && self.recovery.len() > 0 {
                    self.at(Phase::Recovering, 0)
                } else {
                    self.at(Phase::Failed, self.cursor)
                },
            },
            Phase::Recovering => match event {
                Event::Done => if self.cursor + 1 < self.recovery.len() {
                    self.at(Phase::Recovering, self.cursor + 1)
                } else {
                    self.at(Phase::Failed, self.cursor)
                },
                Event::Failed => self.at(Phase::Failed, self.cursor),
            },
            Phase::Completed => self,
            Phase::Failed => self,
        }
    }
}

impl ExchangeView {
    /// The exchange once the transport has reported `events`, one after the
    /// other.
    pub open spec fn replay(self, events: Seq<Event>) -> ExchangeView
        decreases events.len(),
    {
        if events.len() == 0 {
            self
        } else {
            self.replay(events.drop_last()).after(events.last())
        }
    }
}

/// `n` reports of a request carried out.
pub open spec fn all_done(n: nat) -> Seq<Event> {
    Seq::new(n, |i: int| Event::Done)
}

/// While the transport reports no failure, the requests come in the order of
/// the list, one for each report, and with the last of them the exchange has
/// completed.
pub proof fn lemma_done_walks_the_list(
    steps: Seq<RequestView>,
    guard: nat,
    recovery: Seq<RequestView>,
    startup: Option<u32>,
    n: nat,
)
    requires
        n <= steps.len(),
    ensures
        ({
            let start = ExchangeView::fresh(steps, guard, recovery, startup);
            let reached = start.replay(all_done(n));
            &&& n < steps.len() ==> reached == start.at(Phase::Forward, n) && reached.request()
                == Some(steps[n as int])
            &&& n == steps.len() ==> reached.phase == Phase::Completed && reached.request().is_none()
        }),
    decreases n,
{
    if n > 0 {
        let before = (n - 1) as nat;
        lemma_done_walks_the_list(steps, guard, recovery, startup, before);
        assert(all_done(n).drop_last() =~= all_done(before));
    }
}

/// What `events` say of an exchange that began fresh and stands at `reached`:
/// on its way through the list every report so far was `Done`, and it has
/// completed only after a `Done` for each step.
spec fn history_fits(steps: Seq<RequestView>, events: Seq<Event>, reached: ExchangeView) -> bool {
    &&& reached.phase == Phase::Forward ==> {
        &&& reached.cursor == events.len()
        &&& reached.cursor < steps.len()
        &&& forall|i: int| 0 <= i < events.len() ==> events[i] == Event::Done
    }
    &&& reached.phase == Phase::Completed ==> {
        &&& events.len() >= steps.len()
        &&& forall|i: int| 0 <= i < steps.len() ==> events[i] == Event::Done
    }
}

proof fn lemma_history(
    steps: Seq<RequestView>,
    guard: nat,
    recovery: Seq<RequestView>,
    startup: Option<u32>,
    events: Seq<Event>,
)
    ensures
        ({
            let reached = ExchangeView::fresh(steps, guard, recovery, startup).replay(events);
            &&& reached.steps == steps
            &&& history_fits(steps, events, reached)
        }),
    decreases events.len(),
{
    if events.len() > 0 {
        let earlier = events.drop_last();
        lemma_history(steps, guard, recovery, startup, earlier);
        assert forall|i: int| 0 <= i < earlier.len() implies earlier[i] == events[i] by {}
    }
}

/// An exchange has completed only if the transport reported every request
/// of the list as carried out: one failure among them, and it never
/// completes, whatever is reported after.
pub proof fn lemma_completed_means_all_done(
    steps: Seq<RequestView>,
    guard: nat,
    recovery: Seq<RequestView>,
    startup: Option<u32>,
    events: Seq<Event>,
)
    requires
        ExchangeView::fresh(steps, guard, recovery, startup).replay(events).phase
            == Phase::Completed,
    ensures
        events.len() >= steps.len(),
        forall|i: int| 0 <= i < steps.len() ==> events[i] == Event::Done,
{
    lemma_history(steps, guard, recovery, startup, events);
}

/// After a failure nothing more of the list is asked for: the exchange is
/// in its recovery or has failed, and stays so whatever is reported.
pub proof fn lemma_failure_ends_the_list(exchange: ExchangeView, events: Seq<Event>)
    requires
        exchange.phase == Phase::Recovering || exchange.phase == Phase::Failed,
    ensures
        ({
            let reached = exchange.replay(events);
            reached.phase == Phase::Recovering || reached.phase == Phase::Failed
        }),
    decreases events.len(),
{
    if events.len() > 0 {
        lemma_failure_ends_the_list(exchange, events.drop_last());
    }
}

/// A list of requests on its way through the transport.
#[derive(Debug)]
pub struct Exchange {
    steps: Vec<Request>,
    recovery: Vec<Request>,
    guard: usize,
    cursor: usize,
    phase: Phase,
    startup: Option<u32>,
}

impl View for Exchange {
    type V = ExchangeView;

    closed spec fn view(&self) -> ExchangeView {
        ExchangeView {
            steps: views(self.steps@),
            recovery: views(self.recovery@),
            guard: self.guard as nat,
            cursor: self.cursor as nat,
            phase: self.phase,
            startup: self.startup,
        }
    }
}

impl Exchange {
    #[verifier::type_invariant]
    spec fn well_formed(self) -> bool {
        self@.wf()
    }

    /// An exchange that carries out `steps` in order and stops at the first
    /// failure.
    pub fn new(steps: Vec<Request>) -> (exchange: Exchange)
        ensures
            exchange@ == ExchangeView::plain(views(steps@)),
    {
        let phase = if steps.len() == 0 {
            Phase::Completed
        } else {
            Phase::Forward
        };
        let recovery: Vec<Request> = Vec::new();
        assert(views(recovery@) =~= Seq::empty());
        Exchange { steps, recovery, guard: 0, cursor: 0, phase, startup: None }
    }

    /// The exchange that brings the panel up on a bus clocked at `clock_hz`:
    /// `steps` in order, and `recovery` after a failure of step
    /// `STARTUP_GUARD` or a later one.
    pub(crate) fn startup(steps: Vec<Request>, recovery: Vec<Request>, clock_hz: u32) -> (exchange:
        Exchange)
        requires
            views(steps@) == startup_requests(clock_hz),
            views(recovery@) == startup_recovery(),
        ensures
            exchange@ == ExchangeView::fresh(
                startup_requests(clock_hz),
                STARTUP_GUARD as nat,
                startup_recovery(),
                Some(clock_hz),
            ),
    {
        assert(views(steps@).len() == 18);
        Exchange {
            steps,
            recovery,
            guard: STARTUP_GUARD,
            cursor: 0,
            phase: Phase::Forward,
            startup: Some(clock_hz),
        }
    }

    /// The request that the transport has to perform now; `None` once the
    /// exchange has come to its end.
    pub fn request(&self) -> (pending: Option<&Request>)
        ensures
            self@.wf(),
            match pending {
                Some(request) => self@.request() == Some(request@),
                None => self@.request().is_none(),
            },
    {
        proof {
            use_type_invariant(self);
        }
        match self.phase {
            Phase::Forward => Some(&self.steps[self.cursor]),
            Phase::Recovering => Some(&self.recovery[self.cursor]),
            Phase::Completed => None,
            Phase::Failed => None,
        }
    }

    /// Whether a request is pending, and if none is, how the exchange ended.
    pub fn status(&self) -> (status: Status)
        ensures
            self@.wf(),
            status == self@.status(),
    {
        proof {
            use_type_invariant(self);
        }
        match self.phase {
            Phase::Forward => Status::Pending,
            Phase::Recovering => Status::Pending,
            Phase::Completed => Status::Completed,
            Phase::Failed => Status::Failed,
        }
    }

    /// For the exchange that brings the panel up, the clock of the bus in
    /// hertz; for every other exchange, nothing.
    pub fn startup_clock(&self) -> (clock_hz: Option<u32>)
        ensures
            self@.wf(),
            clock_hz == self@.startup,
    {
        proof {
            use_type_invariant(self);
        }
        self.startup
    }

    /// Takes the transport's report of the pending request and moves on.
    pub fn report(&mut self, event: Event)
        ensures
            final(self)@ == old(self)@.after(event),
            final(self)@.wf(),
    {
        proof {
            use_type_invariant(&*self);
        }
        let steps: usize = self.steps.len();
        let recovery: usize = self.recovery.len();
        match self.phase {
            Phase::Forward => match event {
                Event::Done => {
                    if self.cursor + 1 < steps {
                        self.cursor = self.cursor + 1;
                    } else {
                        self.phase = Phase::Completed;
                    }
                },
                Event::Failed => {
                    if self.cursor >= self.guard && recovery > 0 {
                        self.cursor = 0;
                        self.phase = Phase::Recovering;
                    } else {
                        self.phase = Phase::Failed;
                    }
                },
            },
            Phase::Recovering => match event {
                Event::Done => {
                    if self.cursor + 1 < recovery {
                        self.cursor = self.cursor + 1;
                    } else {
                        self.phase = Phase::Failed;
                    }
                },
                Event::Failed => {
                    self.phase = Phase::Failed;
                },
            },
            Phase::Completed => {},
            Phase::Failed => {},
        }
    }
}

} // verus!
