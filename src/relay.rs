use vstd::prelude::*;
use crate::reply::{correlated, extract_reply};

verus! {

/// A rendered command with the identifier of the completion slot that waits for its reply.
pub struct Command {
    pub id: u64,
    pub payload: String,
}

impl View for Command {
    type V = (u64, Seq<char>);

    open spec fn view(&self) -> (u64, Seq<char>) {
        (self.id, self.payload@)
    }
}

/// Where the session stands.
#[derive(PartialEq, Eq, Structural, Clone, Copy, Debug)]
pub enum Phase {
    /// No connection; waiting to (re)connect.
    Disconnected,
    /// A connection attempt is under way.
    Connecting,
    /// Connected; the identification handshake is under way.
    Identifying,
    /// Identified, with no command in flight.
    Ready,
    /// A command was taken; stale inbound frames are being discarded.
    Draining,
    /// The command is being transmitted.
    Transmitting,
    /// The command was transmitted; the next inbound frame is its reply.
    AwaitingReply,
}

/// What the outside world reports to the session manager.
pub enum Event {
    /// Start, or the reconnect delay has elapsed.
    Start,
    Connected,
    ConnectFailed,
    Identified,
    IdentifyFailed,
    /// A command may have been queued.
    Wake,
    /// A non-blocking poll found a frame already waiting (it is discarded).
    Stale,
    /// A non-blocking poll found no frame waiting.
    Drained,
    Sent,
    SendFailed,
    /// The frame read after transmission, rendered as text.
    Frame(String),
    /// The inbound frame stream ended or failed.
    StreamEnded,
}

/// What the session manager asks the outside world to do next.
pub enum Action {
    Connect,
    Identify,
    /// Tear the session down, drop the slot of the given command if any, and feed
    /// `Start` after the reconnect delay.
    Retry(Option<u64>),
    /// Nothing to do until a command is queued; then feed `Wake`.
    Idle,
    /// Poll the inbound stream without blocking.
    Poll,
    /// Transmit the payload of the given command.
    Transmit(u64, String),
    /// Block until the next inbound frame.
    AwaitFrame,
    /// Fulfil the slot of the given command with the text, then feed `Wake`.
    Complete(u64, String),
}

/// The mathematical form of an `Action`, with texts as character sequences.
pub enum ActionView {
    Connect,
    Identify,
    Retry(Option<u64>),
    Idle,
    Poll,
    Transmit(u64, Seq<char>),
    AwaitFrame,
    Complete(u64, Seq<char>),
}

impl View for Action {
    type V = ActionView;

    open spec fn view(&self) -> ActionView {
        match self {
            Action::Connect => ActionView::Connect,
            Action::Identify => ActionView::Identify,
            Action::Retry(id) => ActionView::Retry(*id),
            Action::Idle => ActionView::Idle,
            Action::Poll => ActionView::Poll,
            Action::Transmit(id, p) => ActionView::Transmit(*id, p@),
            Action::AwaitFrame => ActionView::AwaitFrame,
            Action::Complete(id, t) => ActionView::Complete(*id, t@),
        }
    }
}

/// The state of the session manager and of the dispatcher queue it serves.
pub struct RelayState {
    pub phase: Phase,
    /// Queued commands, oldest first.
    pub queue: Seq<(u64, Seq<char>)>,
    /// The command taken from the queue and not yet completed.
    pub current: Option<(u64, Seq<char>)>,
    pub capacity: nat,
    /// The sender marker that precedes a reply in an inbound frame.
    pub sep: Seq<char>,
}

/// The phases in which a command has been taken from the queue and not yet completed.
pub open spec fn in_flight(p: Phase) -> bool {
    p == Phase::Draining || p == Phase::Transmitting || p == Phase::AwaitingReply
}

/// Commands accepted and not yet completed: the queued ones and the one in flight.
pub open spec fn load(s: RelayState) -> nat {
    s.queue.len() + if s.current is Some { 1nat } else { 0nat }
}

impl RelayState {
    /// At most `capacity` commands are held, and exactly the in-flight phases hold one.
    pub open spec fn valid(self) -> bool {
        &&& load(self) <= self.capacity
        &&& (self.current is Some <==> in_flight(self.phase))
    }
}

/// The text handed to a caller whose command could not be transmitted.
pub open spec fn send_failed_text() -> Seq<char> {
    "Failed to send IRC command"@
}

/// Accepting a command appends it to the queue; a saturated queue refuses it.
pub open spec fn submitted(s: RelayState, c: (u64, Seq<char>)) -> (RelayState, bool) {
    if load(s) < s.capacity {
        (RelayState { queue: s.queue.push(c), ..s }, true)
    } else {
        (s, false)
    }
}

/// Takes the oldest queued command, if any, and starts draining before it is sent.
pub open spec fn take_next(s: RelayState) -> (RelayState, ActionView) {
    if s.queue.len() > 0 {
        (
            RelayState {
                phase: Phase::Draining,
                queue: s.queue.drop_first(),
                current: Some(s.queue[0]),
                ..s
            },
            ActionView::Poll,
        )
    } else {
        (RelayState { phase: Phase::Ready, ..s }, ActionView::Idle)
    }
}

/// The session is lost: a command not yet transmitted goes back to the front of the
/// queue; one already transmitted is abandoned.
pub open spec fn disconnected(s: RelayState) -> (RelayState, ActionView) {
    match s.current {
        Some(c) => if s.phase == Phase::Draining {
            (
                RelayState {
                    phase: Phase::Disconnected,
                    queue: seq![c] + s.queue,
                    current: None,
                    ..s
                },
                ActionView::Retry(None),
            )
        } else {
            (
                RelayState { phase: Phase::Disconnected, current: None, ..s },
                ActionView::Retry(Some(c.0)),
            )
        },
        None => (RelayState { phase: Phase::Disconnected, ..s }, ActionView::Retry(None)),
    }
}

/// The command in flight is done with `text`; the session is ready for the next one.
pub open spec fn completed(s: RelayState, text: Seq<char>) -> (RelayState, ActionView) {
    (
        RelayState { phase: Phase::Ready, current: None, ..s },
        ActionView::Complete(s.current->Some_0.0, text),
    )
}

/// The next state and action for an event.
pub open spec fn transition(s: RelayState, e: Event) -> (RelayState, ActionView) {
    match (s.phase, e) {
        (Phase::Disconnected, Event::Start) => (
            RelayState { phase: Phase::Connecting, ..s },
            ActionView::Connect,
        ),
        (Phase::Connecting, Event::Connected) => (
            RelayState { phase: Phase::Identifying, ..s },
            ActionView::Identify,
        ),
        (Phase::Connecting, Event::ConnectFailed) => (
            RelayState { phase: Phase::Disconnected, ..s },
            ActionView::Retry(None),
        ),
        (Phase::Identifying, Event::Identified) => take_next(s),
        (Phase::Identifying, Event::IdentifyFailed) => (
            RelayState { phase: Phase::Disconnected, ..s },
            ActionView::Retry(None),
        ),
        (Phase::Ready, Event::Wake) => take_next(s),
        (Phase::Draining, Event::Stale) => (s, ActionView::Poll),
        (Phase::Draining, Event::Drained) => (
            RelayState { phase: Phase::Transmitting, ..s },
            ActionView::Transmit(s.current->Some_0.0, s.current->Some_0.1),
        ),
        (Phase::Transmitting, Event::Sent) => (
            RelayState { phase: Phase::AwaitingReply, ..s },
            ActionView::AwaitFrame,
        ),
        (Phase::Transmitting, Event::SendFailed) => completed(s, send_failed_text()),
        (Phase::AwaitingReply, Event::Frame(t)) => completed(s, correlated(t@, s.sep)),
        (Phase::Ready, Event::StreamEnded) => disconnected(s),
        (Phase::Draining, Event::StreamEnded) => disconnected(s),
        (Phase::Transmitting, Event::StreamEnded) => disconnected(s),
        (Phase::AwaitingReply, Event::StreamEnded) => disconnected(s),
        _ => (s, ActionView::Idle),
    }
}

/// The fields of a relay, kept apart from the wrapper that holds its validity as a
/// type invariant so that they can be updated one at a time.
struct RelayParts {
    phase: Phase,
    queue: Vec<Command>,
    current: Option<Command>,
    capacity: usize,
    sep: String,
}

impl View for RelayParts {
    type V = RelayState;

    closed spec fn view(&self) -> RelayState {
        RelayState {
            phase: self.phase,
            queue: self.queue@.map_values(|c: Command| c@),
            current: match self.current {
                Some(c) => Some(c@),
                None => None,
            },
            capacity: self.capacity as nat,
            sep: self.sep@,
        }
    }
}

impl RelayParts {
    /// A disconnected relay with an empty queue of the given capacity; `sep` is the
    /// marker that precedes a reply in an inbound frame.
    fn new(capacity: usize, sep: &str) -> (r: RelayParts)
        ensures
            r@ == (RelayState {
                phase: Phase::Disconnected,
                queue: Seq::empty(),
                current: None,
                capacity: capacity as nat,
                sep: sep@,
            }),
            r@.valid(),
    {
        let r = RelayParts {
            phase: Phase::Disconnected,
            queue: Vec::new(),
            current: None,
            capacity,
            sep: sep.to_string(),
        };
        assert(r@.queue =~= Seq::empty());
        r
    }

    fn load(&self) -> (r: usize)
        requires
            self@.valid(),
        ensures
            r == load(self@),
    {
        proof {
            self.lemma_view_lens();
        }
        if self.current.is_some() {
            self.queue.len() + 1
        } else {
            self.queue.len()
        }
    }

    proof fn lemma_view_lens(&self)
        ensures
            self@.queue.len() == self.queue@.len(),
            self@.capacity == self.capacity,
            self@.current is Some <==> self.current is Some,
    {
    }

    /// Queues a command without blocking; when the queue is saturated the command is
    /// handed back and nothing changes.
    fn submit(&mut self, c: Command) -> (r: Result<(), Command>)
        requires
            old(self)@.valid(),
        ensures
            (final(self)@, r is Ok) == submitted(old(self)@, c@),
            final(self)@.valid(),
            match r {
                Ok(_) => true,
                Err(back) => back@ == c@,
            },
    {
        proof {
            self.lemma_view_lens();
        }
        let n = self.load();
        if n < self.capacity {
            let ghost cv = c@;
            self.queue.push(c);
            assert(self@.queue =~= old(self)@.queue.push(cv));
            Ok(())
        } else {
            Err(c)
        }
    }

    fn take_next(&mut self) -> (a: Action)
        requires
            old(self)@.valid(),
            old(self).current is None,
        ensures
            (final(self)@, a@) == take_next(old(self)@),
    {
        if self.queue.len() > 0 {
            let c = self.queue.remove(0);
            self.phase = Phase::Draining;
            self.current = Some(c);
            assert(self@.queue =~= old(self)@.queue.drop_first());
            Action::Poll
        } else {
            self.phase = Phase::Ready;
            Action::Idle
        }
    }

    fn disconnect(&mut self) -> (a: Action)
        requires
            old(self)@.valid(),
        ensures
            (final(self)@, a@) == disconnected(old(self)@),
    {
        let was_draining = self.phase == Phase::Draining;
        let cur = self.current.take();
        self.phase = Phase::Disconnected;
        match cur {
            Some(c) => {
                if was_draining {
                    let ghost cv = c@;
                    self.queue.insert(0, c);
                    assert(self@.queue =~= seq![cv] + old(self)@.queue);
                    Action::Retry(None)
                } else {
                    Action::Retry(Some(c.id))
                }
            },
            None => Action::Retry(None),
        }
    }

    /// Advances the session by one event and returns the action to perform.
    fn step(&mut self, e: Event) -> (a: Action)
        requires
            old(self)@.valid(),
        ensures
            (final(self)@, a@) == transition(old(self)@, e),
            final(self)@.valid(),
    {
        match (self.phase, e) {
            (Phase::Disconnected, Event::Start) => {
                self.phase = Phase::Connecting;
                Action::Connect
            },
            (Phase::Connecting, Event::Connected) => {
                self.phase = Phase::Identifying;
                Action::Identify
            },
            (Phase::Connecting, Event::ConnectFailed) => {
                self.phase = Phase::Disconnected;
                Action::Retry(None)
            },
            (Phase::Identifying, Event::Identified) => self.take_next(),
            (Phase::Identifying, Event::IdentifyFailed) => {
                self.phase = Phase::Disconnected;
                Action::Retry(None)
            },
            (Phase::Ready, Event::Wake) => self.take_next(),
            (Phase::Draining, Event::Stale) => Action::Poll,
            (Phase::Draining, Event::Drained) => {
                self.phase = Phase::Transmitting;
                match &self.current {
                    Some(c) => Action::Transmit(c.id, c.payload.clone()),
                    None => Action::Idle,
                }
            },
            (Phase::Transmitting, Event::Sent) => {
                self.phase = Phase::AwaitingReply;
                Action::AwaitFrame
            },
            (Phase::Transmitting, Event::SendFailed) => {
                let cur = self.current.take();
                self.phase = Phase::Ready;
                match cur {
                    Some(c) => Action::Complete(c.id, String::from_str("Failed to send IRC command")),
                    None => Action::Idle,
                }
            },
            (Phase::AwaitingReply, Event::Frame(t)) => {
                let cur = self.current.take();
                self.phase = Phase::Ready;
                match cur {
                    Some(c) => Action::Complete(c.id, extract_reply(t.as_str(), self.sep.as_str())),
                    None => Action::Idle,
                }
            },
            (Phase::Ready, Event::StreamEnded) => self.disconnect(),
            (Phase::Draining, Event::StreamEnded) => self.disconnect(),
            (Phase::Transmitting, Event::StreamEnded) => self.disconnect(),
            (Phase::AwaitingReply, Event::StreamEnded) => self.disconnect(),
            _ => Action::Idle,
        }
    }
}

/// The session manager: owns the dispatcher queue and decides, event by event, what
/// the single session does next.
pub struct Relay {
    parts: RelayParts,
}

impl View for Relay {
    type V = RelayState;

    closed spec fn view(&self) -> RelayState {
        self.parts@
    }
}

impl Relay {
    #[verifier::type_invariant]
    spec fn inv(&self) -> bool {
        self.parts@.valid()
    }

    /// A disconnected relay with an empty queue of the given capacity; `sep` is the
    /// marker that precedes a reply in an inbound frame.
    pub fn new(capacity: usize, sep: &str) -> (r: Relay)
        ensures
            r@ == (RelayState {
                phase: Phase::Disconnected,
                queue: Seq::empty(),
                current: None,
                capacity: capacity as nat,
                sep: sep@,
            }),
    {
        Relay { parts: RelayParts::new(capacity, sep) }
    }

    /// The current phase of the session.
    pub fn phase(&self) -> (r: Phase)
        ensures
            r == self@.phase,
    {
        self.parts.phase
    }

    /// Number of commands accepted and not yet completed.
    pub fn load(&self) -> (r: usize)
        ensures
            r == load(self@),
            self@.valid(),
    {
        proof {
            use_type_invariant(self);
        }
        self.parts.load()
    }

    fn take_parts(&mut self) -> (p: RelayParts)
        ensures
            p@ == old(self)@,
            p@.valid(),
    {
        proof {
            use_type_invariant(&*self);
        }
        let mut p = RelayParts::new(0, "");
        std::mem::swap(&mut p, &mut self.parts);
        p
    }

    /// Queues a command without blocking; when the queue is saturated the command is
    /// handed back and nothing changes.
    pub fn submit(&mut self, c: Command) -> (r: Result<(), Command>)
        ensures
            (final(self)@, r is Ok) == submitted(old(self)@, c@),
            final(self)@.valid(),
            match r {
                Ok(_) => true,
                Err(back) => back@ == c@,
            },
    {
        let mut p = self.take_parts();
        let r = p.submit(c);
        self.parts = p;
        r
    }

    /// Advances the session by one event and returns the action to perform.
    pub fn step(&mut self, e: Event) -> (a: Action)
        ensures
            (final(self)@, a@) == transition(old(self)@, e),
            final(self)@.valid(),
    {
        let mut p = self.take_parts();
        let a = p.step(e);
        self.parts = p;
        a
    }
}

/// Commands accepted and not yet transmitted, oldest first.
pub open spec fn unsent(s: RelayState) -> Seq<(u64, Seq<char>)> {
    if s.phase == Phase::Draining {
        seq![s.current->Some_0] + s.queue
    } else {
        s.queue
    }
}

/// The command that an action transmits, if any.
pub open spec fn transmitted(a: ActionView) -> Seq<(u64, Seq<char>)> {
    match a {
        ActionView::Transmit(id, p) => seq![(id, p)],
        _ => Seq::empty(),
    }
}

/// One input to the relay: a submission from a caller, or an event from the session.
pub enum Input {
    Submit((u64, Seq<char>)),
    Report(Event),
}

/// The state after a run of inputs, with the commands transmitted and the commands
/// accepted along the way, each in order.
pub open spec fn run(s: RelayState, ins: Seq<Input>) -> (
    RelayState,
    Seq<(u64, Seq<char>)>,
    Seq<(u64, Seq<char>)>,
)
    decreases ins.len(),
{
    if ins.len() == 0 {
        (s, Seq::empty(), Seq::empty())
    } else {
        let (s1, sent, accepted) = run(s, ins.drop_last());
        match ins.last() {
            Input::Submit(c) => {
                let (s2, ok) = submitted(s1, c);
                (s2, sent, if ok { accepted.push(c) } else { accepted })
            },
            Input::Report(e) => {
                let (s2, a) = transition(s1, e);
                (s2, sent + transmitted(a), accepted)
            },
        }
    }
}

/// Every transition keeps the relay state valid.
proof fn lemma_transition_valid(s: RelayState, e: Event)
    requires
        s.valid(),
    ensures
        transition(s, e).0.valid(),
{
}

/// Every submission keeps the relay state valid.
proof fn lemma_submitted_valid(s: RelayState, c: (u64, Seq<char>))
    requires
        s.valid(),
    ensures
        submitted(s, c).0.valid(),
{
}

/// One step of the session: it transmits at most the oldest unsent command and keeps
/// the others in order; a command is transmitted only from the draining phase, which
/// is entered only when no other command is in flight; an accepted submission joins
/// the end of the line.
pub proof fn law_serialization_step(s: RelayState, e: Event, c: (u64, Seq<char>))
    requires
        s.valid(),
    ensures
        transmitted(transition(s, e).1) + unsent(transition(s, e).0) == unsent(s),
        transition(s, e).1 is Transmit ==> s.phase == Phase::Draining,
        (transition(s, e).0.phase == Phase::Draining && s.phase != Phase::Draining)
            ==> s.current is None,
        submitted(s, c).1 ==> unsent(submitted(s, c).0) == unsent(s).push(c),
{
    let (s2, a) = transition(s, e);
    if s.phase == Phase::Draining {
        assert(seq![s.current->Some_0] + s.queue == seq![s.current->Some_0] + s.queue);
    }
    assert(transmitted(a) + unsent(s2) =~= unsent(s));
    if submitted(s, c).1 {
        assert(unsent(submitted(s, c).0) =~= unsent(s).push(c));
    }
}

/// Over any run of submissions and session events, the commands transmitted followed
/// by those still unsent are exactly the commands unsent at the start followed by those
/// accepted: the remote peer sees commands in the order in which they were queued.
pub proof fn law_serialization(s: RelayState, ins: Seq<Input>)
    requires
        s.valid(),
    ensures
        run(s, ins).0.valid(),
        run(s, ins).1 + unsent(run(s, ins).0) == unsent(s) + run(s, ins).2,
    decreases ins.len(),
{
    if ins.len() > 0 {
        law_serialization(s, ins.drop_last());
        let (s1, sent, accepted) = run(s, ins.drop_last());
        match ins.last() {
            Input::Submit(c) => {
                lemma_submitted_valid(s1, c);
                law_serialization_step(s1, Event::Wake, c);
                if submitted(s1, c).1 {
                    assert(sent + unsent(s1).push(c) =~= (sent + unsent(s1)).push(c));
                    assert((unsent(s) + accepted).push(c) =~= unsent(s) + accepted.push(c));
                }
            },
            Input::Report(e) => {
                lemma_transition_valid(s1, e);
                law_serialization_step(s1, e, (0, Seq::empty()));
                let (s2, a) = transition(s1, e);
                assert(sent + transmitted(a) + unsent(s2) =~= sent + (transmitted(a) + unsent(s2)));
            },
        }
    }
}

/// Frames already waiting when a command is taken are discarded without completing
/// anything; after transmission, the first frame read completes the command in flight
/// with the reply that frame carries; no step completes any other command.
pub proof fn law_correlation(s: RelayState, e: Event)
    requires
        s.valid(),
    ensures
        s.phase == Phase::Draining && e is Stale ==> transition(s, e) == (s, ActionView::Poll),
        s.phase == Phase::AwaitingReply && e is Frame ==> transition(s, e).1
            == ActionView::Complete(s.current->Some_0.0, correlated(e->Frame_0@, s.sep)),
        transition(s, e).1 is Complete ==> s.current is Some && transition(s, e).1->Complete_0
            == s.current->Some_0.0 && transition(s, e).0.current is None,
{
}

/// The state after `k` frames that were already waiting have been polled and discarded.
pub open spec fn after_stale(s: RelayState, k: nat) -> RelayState
    decreases k,
{
    if k == 0 {
        s
    } else {
        transition(after_stale(s, (k - 1) as nat), Event::Stale).0
    }
}

proof fn lemma_stale_keeps_state(s: RelayState, k: nat)
    requires
        s.valid(),
        s.phase == Phase::Draining,
    ensures
        after_stale(s, k) == s,
    decreases k,
{
    if k > 0 {
        lemma_stale_keeps_state(s, (k - 1) as nat);
    }
}

/// A whole exchange: the oldest queued command is taken, any number of stale frames
/// are discarded, the command is transmitted, and the frame that follows completes it
/// with the reply that frame carries, whatever the discarded frames held.
pub proof fn law_exchange(s: RelayState, k: nat, frame: String)
    requires
        s.valid(),
        s.phase == Phase::Ready,
        s.queue.len() > 0,
    ensures
        ({
            let c = s.queue[0];
            let s1 = after_stale(transition(s, Event::Wake).0, k);
            let (s2, t) = transition(s1, Event::Drained);
            let s3 = transition(s2, Event::Sent).0;
            let (s4, a) = transition(s3, Event::Frame(frame));
            &&& t == ActionView::Transmit(c.0, c.1)
            &&& a == ActionView::Complete(c.0, correlated(frame@, s.sep))
            &&& s4.phase == Phase::Ready
            &&& s4.queue == s.queue.drop_first()
        }),
{
    let s0 = transition(s, Event::Wake).0;
    lemma_stale_keeps_state(s0, k);
}

/// Once the queue is saturated, a submission is refused at once and changes nothing.
pub proof fn law_back_pressure(s: RelayState, c: (u64, Seq<char>))
    requires
        s.valid(),
        load(s) >= s.capacity,
    ensures
        submitted(s, c) == (s, false),
{
}

/// When the session is lost no unsent command is lost, and a command submitted during
/// the outage is accepted while the queue has room: once the session is re-established
/// the oldest unsent command is the next one handled, and the others, the new one last,
/// keep their order.
pub proof fn law_reconnect(s: RelayState, c: (u64, Seq<char>))
    requires
        s.valid(),
        in_flight(s.phase) || s.phase == Phase::Ready,
    ensures
        ({
            let s1 = transition(s, Event::StreamEnded).0;
            let (s2, ok) = submitted(s1, c);
            let s3 = transition(s2, Event::Start).0;
            let s4 = transition(s3, Event::Connected).0;
            let (s5, a) = transition(s4, Event::Identified);
            let line = if ok { unsent(s).push(c) } else { unsent(s) };
            &&& s1.phase == Phase::Disconnected
            &&& ok == (load(s1) < s.capacity)
            &&& unsent(s5) == line
            &&& line.len() > 0 ==> s5.phase == Phase::Draining && a == ActionView::Poll
                && s5.current == Some(line[0])
        }),
{
    let s1 = transition(s, Event::StreamEnded).0;
    let (s2, ok) = submitted(s1, c);
    let s5 = transition(
        transition(transition(s2, Event::Start).0, Event::Connected).0,
        Event::Identified,
    ).0;
    let line = if ok { unsent(s).push(c) } else { unsent(s) };
    assert(s1.queue =~= unsent(s));
    assert(s2.queue =~= line);
    if line.len() > 0 {
        assert(unsent(s5) =~= line);
    } else {
        assert(unsent(s5) =~= line);
    }
}

} // verus!
