//! The station's control: which action follows which event.
//!
//! The station itself performs nothing. Its driver brings the network up,
//! reads the sensor, posts payloads and sleeps, and reports each outcome as an
//! event; the station answers with the next action to perform.

use vstd::prelude::*;
use crate::pipeline::collecting;
use crate::pipeline::feed_step;
use crate::pipeline::Pipeline;
use crate::pipeline::SensorError;
use crate::payload::SensorPayload;
use crate::reading::RawReading;
use crate::request::TransportError;
use crate::window::WindowError;
use crate::window::WindowView;

verus! {

/// The number of successful readings per report, unless configured otherwise.
pub const WINDOW_SIZE: usize = 10;

/// The pause between two sensor attempts in milliseconds, unless configured
/// otherwise.
pub const POLL_INTERVAL_MS: u32 = 2000;

/// What the station is waiting for.
#[derive(Clone, Copy, Debug, PartialEq, Eq, Structural)]
pub enum Phase {
    /// The network is being brought up.
    Connecting,
    /// The sensor is being read.
    Measuring,
    /// A payload is being posted.
    Posting,
    /// The pause before the next attempt is running.
    Sleeping,
    /// Bring-up failed: the station has stopped for good.
    Halted,
}

/// The outcome of what the driver performed last.
#[derive(Clone, Copy, Debug, PartialEq, Eq, Structural)]
pub enum Event {
    /// The network is up.
    Connected,
    /// The network could not be brought up.
    ConnectFailed,
    /// The sensor supplied a reading.
    Measured(RawReading),
    /// The sensor supplied no reading.
    SensorFailed(SensorError),
    /// The payload was delivered.
    Posted,
    /// The payload was not delivered.
    PostFailed(TransportError),
    /// The pause is over.
    Slept,
}

/// What the driver is to perform next.
#[derive(Debug)]
pub enum Action {
    /// Read the sensor, with a fresh delay, and report the outcome.
    Measure,
    /// Post the payload to the endpoint and report the outcome.
    Post(SensorPayload),
    /// Pause for this many milliseconds and report when the pause is over.
    Sleep(u32),
    /// Terminate: nothing more is to be performed.
    Halt,
}

/// An action, with the payload as its bytes.
pub enum ActionView {
    /// Read the sensor.
    Measure,
    /// Post these bytes.
    Post(Seq<u8>),
    /// Pause for this many milliseconds.
    Sleep(u32),
    /// Terminate.
    Halt,
}

impl View for Action {
    type V = ActionView;

    open spec fn view(&self) -> ActionView {
        match self {
            Action::Measure => ActionView::Measure,
            Action::Post(payload) => ActionView::Post(payload@),
            Action::Sleep(ms) => ActionView::Sleep(*ms),
            Action::Halt => ActionView::Halt,
        }
    }
}

/// Why the station refused an event.
#[derive(Clone, Copy, Debug, PartialEq, Eq, Structural)]
pub enum StationError {
    /// The event is not an outcome of what the station is waiting for.
    UnexpectedEvent,
}

/// What a station holds.
pub struct StationView {
    /// What the station is waiting for.
    pub phase: Phase,
    /// The window of its pipeline.
    pub window: WindowView,
    /// The pause between two sensor attempts, in milliseconds.
    pub interval_ms: u32,
}

impl StationView {
    /// The same station in another phase.
    pub open spec fn in_phase(self, phase: Phase) -> StationView {
        StationView { phase, ..self }
    }

    /// The same station with another window.
    pub open spec fn with_window(self, window: WindowView) -> StationView {
        StationView { window, ..self }
    }

    /// The invariant of a station: that of its pipeline.
    pub open spec fn wf(self) -> bool {
        collecting(self.window)
    }
}

/// The station's transition. An event that is an outcome of what the station
/// waits for gives the state that follows and the action to perform; any
/// other event is refused.
///
/// Bring-up leads to the first sensor attempt, or to a halt if it failed.
/// A sensor attempt, failed or not, leads to a pause, unless its reading
/// filled the window: then the window's payload is posted first. The outcome
/// of a post, failed or not, leads to the pause. The pause leads to the next
/// sensor attempt. A halted station waits for nothing.
pub open spec fn next(state: StationView, event: Event) -> Result<
    (StationView, ActionView),
    StationError,
> {
    match (state.phase, event) {
        (Phase::Connecting, Event::Connected) => Ok(
            (state.in_phase(Phase::Measuring), ActionView::Measure),
        ),
        (Phase::Connecting, Event::ConnectFailed) => Ok(
            (state.in_phase(Phase::Halted), ActionView::Halt),
        ),
        (Phase::Measuring, Event::Measured(raw)) => {
            let (window, report) = feed_step(state.window, Ok(raw));
            match report {
                Some(text) => Ok(
                    (state.with_window(window).in_phase(Phase::Posting), ActionView::Post(text)),
                ),
                None => Ok(
                    (
                        state.with_window(window).in_phase(Phase::Sleeping),
                        ActionView::Sleep(state.interval_ms),
                    ),
                ),
            }
        },
        (Phase::Measuring, Event::SensorFailed(_)) => Ok(
            (state.in_phase(Phase::Sleeping), ActionView::Sleep(state.interval_ms)),
        ),
        (Phase::Posting, Event::Posted) => Ok(
            (state.in_phase(Phase::Sleeping), ActionView::Sleep(state.interval_ms)),
        ),
        (Phase::Posting, Event::PostFailed(_)) => Ok(
            (state.in_phase(Phase::Sleeping), ActionView::Sleep(state.interval_ms)),
        ),
        (Phase::Sleeping, Event::Slept) => Ok(
            (state.in_phase(Phase::Measuring), ActionView::Measure),
        ),
        _ => Err(StationError::UnexpectedEvent),
    }
}

/// Where a series of events leaves the station.
pub struct Trace {
    /// The station after the last event.
    pub state: StationView,
    /// The actions it asked for on the way, in order.
    pub actions: Seq<ActionView>,
}

/// The outcome of handing `events`, in order, to a station in `state`. A
/// refused event changes nothing and asks for nothing.
pub open spec fn trace(state: StationView, events: Seq<Event>) -> Trace
    decreases events.len(),
{
    if events.len() == 0 {
        Trace { state, actions: Seq::empty() }
    } else {
        let before = trace(state, events.drop_last());
        match next(before.state, events.last()) {
            Ok((after, action)) => Trace { state: after, actions: before.actions.push(action) },
            Err(_) => before,
        }
    }
}

/// A halted station refuses every event: it changes no more and asks for
/// nothing, whatever is handed to it.
pub proof fn lemma_halted_asks_nothing(state: StationView, events: Seq<Event>)
    requires
        state.phase == Phase::Halted,
    ensures
        trace(state, events) == (Trace { state, actions: Seq::empty() }),
    decreases events.len(),
{
    if events.len() > 0 {
        lemma_halted_asks_nothing(state, events.drop_last());
    }
}

/// A failed bring-up is fatal. The station answers it with a halt, and
/// whatever events follow, it asks for nothing else: no sensor is read and no
/// payload is posted, and the window stays as it was.
pub proof fn lemma_connect_failure_is_fatal(state: StationView, events: Seq<Event>)
    requires
        state.phase == Phase::Connecting,
    ensures
        next(state, Event::ConnectFailed) == Ok::<(StationView, ActionView), StationError>(
            (state.in_phase(Phase::Halted), ActionView::Halt),
        ),
        trace(state, seq![Event::ConnectFailed] + events) == (Trace {
            state: state.in_phase(Phase::Halted),
            actions: seq![ActionView::Halt],
        }),
    decreases events.len(),
{
    let first = seq![Event::ConnectFailed];
    let all = first + events;
    if events.len() == 0 {
        assert(all.drop_last() =~= Seq::<Event>::empty());
        assert(trace(state, all.drop_last()).actions =~= Seq::<ActionView>::empty());
        assert(trace(state, all).actions =~= seq![ActionView::Halt]);
    } else {
        lemma_connect_failure_is_fatal(state, events.drop_last());
        assert(all.drop_last() =~= first + events.drop_last());
    }
}

/// A failed sensor read is skipped: the window stays as it is, and the
/// station goes on to the pause, with no payload and no post.
pub proof fn lemma_sensor_failure_is_skipped(state: StationView, error: SensorError)
    requires
        state.phase == Phase::Measuring,
    ensures
        next(state, Event::SensorFailed(error)) == Ok::<(StationView, ActionView), StationError>(
            (state.in_phase(Phase::Sleeping), ActionView::Sleep(state.interval_ms)),
        ),
        state.in_phase(Phase::Sleeping).window == state.window,
{
}

/// A payload is posted exactly when a reading fills the window.
pub proof fn lemma_post_when_window_fills(state: StationView, event: Event)
    requires
        state.wf(),
    ensures
        (next(state, event) matches Ok((_, ActionView::Post(_)))) <==> state.phase
            == Phase::Measuring && event is Measured && state.window.len() + 1
            == state.window.capacity,
        next(state, event) matches Ok((after, ActionView::Post(_))) ==> after.window.len() == 0,
{
}

/// The sensor is read only once the network is up, and from then on only
/// after a pause: two attempts are always a pause apart, and every pause
/// lasts as long as the station was configured for.
pub proof fn lemma_attempts_are_paced(state: StationView, event: Event)
    ensures
        next(state, event) matches Ok((after, ActionView::Measure)) ==> after.phase
            == Phase::Measuring && ((state.phase == Phase::Connecting && event
            == Event::Connected) || (state.phase == Phase::Sleeping && event == Event::Slept)),
        next(state, event) matches Ok((after, ActionView::Sleep(ms))) ==> after.phase
            == Phase::Sleeping && ms == state.interval_ms,
        next(state, event) matches Ok((after, _)) ==> (after.phase == Phase::Measuring
            <==> state.phase == Phase::Sleeping || (state.phase == Phase::Connecting && event
            == Event::Connected)),
{
}

/// Whether a post succeeded or failed makes no difference to the station:
/// either way it goes on to the pause, and the window is not touched.
pub proof fn lemma_post_outcome_is_ignored(state: StationView, error: TransportError)
    requires
        state.phase == Phase::Posting,
    ensures
        next(state, Event::PostFailed(error)) == next(state, Event::Posted),
        next(state, Event::Posted) == Ok::<(StationView, ActionView), StationError>(
            (state.in_phase(Phase::Sleeping), ActionView::Sleep(state.interval_ms)),
        ),
{
}

/// Whatever events are handed to a station, the two sequences of its window
/// keep the same length, which stays below the capacity between events, and
/// neither the capacity nor the pause changes.
pub proof fn lemma_trace_within_capacity(state: StationView, events: Seq<Event>)
    requires
        state.wf(),
    ensures
        trace(state, events).state.wf(),
        trace(state, events).state.window.capacity == state.window.capacity,
        trace(state, events).state.interval_ms == state.interval_ms,
        trace(state, events).state.window.temperatures.len() == trace(
            state,
            events,
        ).state.window.humidities.len(),
        trace(state, events).state.window.len() < state.window.capacity,
    decreases events.len(),
{
    if events.len() > 0 {
        lemma_trace_within_capacity(state, events.drop_last());
    }
}

/// The station that controls sampling, reporting and pausing.
#[derive(Debug)]
pub struct Station {
    phase: Phase,
    pipeline: Pipeline,
    interval_ms: u32,
}

impl View for Station {
    type V = StationView;

    closed spec fn view(&self) -> StationView {
        StationView { phase: self.phase, window: self.pipeline@, interval_ms: self.interval_ms }
    }
}

impl Station {
    /// The invariant of a station: that of what it holds.
    pub open spec fn wf(&self) -> bool {
        self@.wf()
    }

    /// A station that waits for the network to come up, then reports once
    /// every `window_size` successful readings and pauses `interval_ms`
    /// milliseconds after every attempt. A window size of zero is refused.
    pub fn new(window_size: usize, interval_ms: u32) -> (result: Result<Station, WindowError>)
        ensures
            window_size == 0 <==> result == Err::<Station, WindowError>(WindowError::ZeroCapacity),
            window_size >= 1 <==> result is Ok,
            result matches Ok(station) ==> station.wf() && station@ == (StationView {
                phase: Phase::Connecting,
                window: WindowView::empty(window_size as nat),
                interval_ms,
            }),
    {
        match Pipeline::new(window_size) {
            Ok(pipeline) => Ok(Station { phase: Phase::Connecting, pipeline, interval_ms }),
            Err(error) => Err(error),
        }
    }

    /// The station with the standard window size and pause.
    pub fn standard() -> (station: Station)
        ensures
            station.wf(),
            station@ == (StationView {
                phase: Phase::Connecting,
                window: WindowView::empty(WINDOW_SIZE as nat),
                interval_ms: POLL_INTERVAL_MS,
            }),
    {
        Station::new(WINDOW_SIZE, POLL_INTERVAL_MS).unwrap()
    }

    /// What the station is waiting for.
    pub fn phase(&self) -> (phase: Phase)
        ensures
            phase == self@.phase,
    {
        self.phase
    }

    /// The number of successful readings that make one report.
    pub fn window_size(&self) -> (size: usize)
        ensures
            size == self@.window.capacity,
    {
        self.pipeline.window_size()
    }

    /// The number of readings collected since the last report.
    pub fn collected(&self) -> (count: usize)
        ensures
            count == self@.window.len(),
    {
        self.pipeline.collected()
    }

    /// The pause between two sensor attempts, in milliseconds.
    pub fn interval_ms(&self) -> (ms: u32)
        ensures
            ms == self@.interval_ms,
    {
        self.interval_ms
    }

    /// Takes in the outcome of what the driver performed last and answers
    /// with what to perform next. An event that is no outcome of what the
    /// station waits for is refused, and the station stays as it is.
    pub fn step(&mut self, event: Event) -> (result: Result<Action, StationError>)
        requires
            old(self).wf(),
        ensures
            final(self).wf(),
            match next(old(self)@, event) {
                Ok((state, action)) => final(self)@ == state && (result matches Ok(asked)
                    && asked@ == action),
                Err(error) => final(self)@ == old(self)@ && result == Err::<Action, StationError>(
                    error,
                ),
            },
    {
        match self.phase {
            Phase::Connecting => match event {
                Event::Connected => {
                    self.phase = Phase::Measuring;
                    Ok(Action::Measure)
                },
                Event::ConnectFailed => {
                    self.phase = Phase::Halted;
                    Ok(Action::Halt)
                },
                _ => Err(StationError::UnexpectedEvent),
            },
            Phase::Measuring => match event {
                Event::Measured(raw) => {
                    match self.pipeline.feed(Ok(raw)) {
                        Some(payload) => {
                            self.phase = Phase::Posting;
                            Ok(Action::Post(payload))
                        },
                        None => {
                            self.phase = Phase::Sleeping;
                            Ok(Action::Sleep(self.interval_ms))
                        },
                    }
                },
                Event::SensorFailed(_) => {
                    self.phase = Phase::Sleeping;
                    Ok(Action::Sleep(self.interval_ms))
                },
                _ => Err(StationError::UnexpectedEvent),
            },
            Phase::Posting => match event {
                Event::Posted => {
                    self.phase = Phase::Sleeping;
                    Ok(Action::Sleep(self.interval_ms))
                },
                Event::PostFailed(_) => {
                    self.phase = Phase::Sleeping;
                    Ok(Action::Sleep(self.interval_ms))
                },
                _ => Err(StationError::UnexpectedEvent),
            },
            Phase::Sleeping => match event {
                Event::Slept => {
                    self.phase = Phase::Measuring;
                    Ok(Action::Measure)
                },
                _ => Err(StationError::UnexpectedEvent),
            },
            Phase::Halted => Err(StationError::UnexpectedEvent),
        }
    }
}

} // verus!
