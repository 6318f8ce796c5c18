//! The sampling-and-aggregation pipeline: sensor attempts go in, and one
//! payload comes out for every full window of successful readings.

use vstd::prelude::*;
use crate::aggregate::sum;
use crate::decimal::round_half_away;
use crate::payload::encode;
use crate::payload::payload_text;
use crate::payload::SensorPayload;
use crate::reading::RawReading;
use crate::reading::Reading;
use crate::window::lemma_push_all_within_capacity;
use crate::window::SamplingWindow;
use crate::window::WindowError;
use crate::window::WindowView;

verus! {

/// Why the sensor supplied no reading.
#[derive(Clone, Copy, Debug, PartialEq, Eq, Structural)]
pub enum SensorError {
    /// The sensor did not answer in time.
    Timeout,
    /// The sample arrived with a wrong checksum.
    CrcMismatch,
    /// The line to the sensor could not be driven or read.
    Gpio,
}

/// One try to read the sensor: a raw reading, or the reason there is none.
pub type Attempt = Result<RawReading, SensorError>;

/// The payload that reports a full window: the means of its humidities and
/// of its temperatures, each rounded to the nearest thousandth.
pub open spec fn window_report(window: WindowView) -> Seq<u8> {
    payload_text(
        round_half_away(100 * sum(window.humidities), window.capacity as int),
        round_half_away(100 * sum(window.temperatures), window.capacity as int),
    )
}

/// What one attempt does to the window, and the payload it gives rise to, if
/// any. A failed attempt does nothing; a reading is converted and collected,
/// and the reading that fills the window has it reported and emptied.
pub open spec fn feed_step(window: WindowView, attempt: Attempt) -> (WindowView, Option<Seq<u8>>) {
    match attempt {
        Err(_) => (window, None),
        Ok(raw) => {
            let filled = window.push(raw.converted());
            if filled.is_full() {
                (filled.cleared(), Some(window_report(filled)))
            } else {
                (filled, None)
            }
        },
    }
}

/// Where a series of attempts leaves the pipeline.
pub struct Run {
    /// The window after the last attempt.
    pub window: WindowView,
    /// The payloads emitted on the way, in order.
    pub reports: Seq<Seq<u8>>,
}

/// The outcome of feeding `attempts`, in order, to a pipeline whose window is
/// `window`.
pub open spec fn run(window: WindowView, attempts: Seq<Attempt>) -> Run
    decreases attempts.len(),
{
    if attempts.len() == 0 {
        Run { window, reports: Seq::empty() }
    } else {
        let before = run(window, attempts.drop_last());
        let (after, report) = feed_step(before.window, attempts.last());
        Run {
            window: after,
            reports: match report {
                Some(text) => before.reports.push(text),
                None => before.reports,
            },
        }
    }
}

/// The readings that the successful attempts among `attempts` supplied,
/// converted, in order.
pub open spec fn readings_of(attempts: Seq<Attempt>) -> Seq<Reading>
    decreases attempts.len(),
{
    if attempts.len() == 0 {
        Seq::empty()
    } else {
        match attempts.last() {
            Ok(raw) => readings_of(attempts.drop_last()).push(raw.converted()),
            Err(_) => readings_of(attempts.drop_last()),
        }
    }
}

/// The number of successful attempts among `attempts`.
pub open spec fn successes(attempts: Seq<Attempt>) -> nat {
    readings_of(attempts).len()
}

/// Whether a pipeline may hold this window: it is well formed and has room.
pub open spec fn collecting(window: WindowView) -> bool {
    window.wf() && !window.is_full()
}

/// A failed sensor read changes nothing in the window and emits no payload.
pub proof fn lemma_failure_is_skipped(window: WindowView, error: SensorError)
    ensures
        feed_step(window, Err(error)) == (window, None::<Seq<u8>>),
        run(window, seq![Err::<RawReading, SensorError>(error)]) == (Run {
            window,
            reports: Seq::empty(),
        }),
{
    let attempts = seq![Err::<RawReading, SensorError>(error)];
    assert(attempts.drop_last() =~= Seq::<Attempt>::empty());
    assert(run(window, attempts.drop_last()) == (Run { window, reports: Seq::empty() }));
}

/// Whatever is fed, the two sequences of the window keep the same length, the
/// window keeps its capacity, and it has room again after every attempt.
pub proof fn lemma_run_within_capacity(window: WindowView, attempts: Seq<Attempt>)
    requires
        collecting(window),
    ensures
        collecting(run(window, attempts).window),
        run(window, attempts).window.capacity == window.capacity,
        run(window, attempts).window.temperatures.len() == run(
            window,
            attempts,
        ).window.humidities.len(),
        run(window, attempts).window.len() < window.capacity,
    decreases attempts.len(),
{
    if attempts.len() > 0 {
        lemma_run_within_capacity(window, attempts.drop_last());
    }
}

/// Every successful attempt is accounted for: the readings held at the start
/// and those supplied since are the readings of the windows reported, each of
/// which was full, and the readings still held.
pub proof fn lemma_run_counts(window: WindowView, attempts: Seq<Attempt>)
    requires
        collecting(window),
    ensures
        window.len() + successes(attempts) == run(window, attempts).reports.len()
            * window.capacity + run(window, attempts).window.len(),
        run(window, attempts).window.len() < window.capacity,
    decreases attempts.len(),
{
    lemma_run_within_capacity(window, attempts);
    if attempts.len() > 0 {
        let before = run(window, attempts.drop_last());
        lemma_run_counts(window, attempts.drop_last());
        lemma_run_within_capacity(window, attempts.drop_last());
        let reported = before.reports.len();
        assert((reported + 1) * window.capacity == reported * window.capacity + window.capacity)
            by (nonlinear_arith);
    } else {
        assert(0 * window.capacity == 0) by (nonlinear_arith);
    }
}

/// As long as fewer readings have come in than the window has room for, the
/// window holds them all, in order, and nothing has been reported.
pub proof fn lemma_run_collects(window: WindowView, attempts: Seq<Attempt>)
    requires
        collecting(window),
        window.len() + successes(attempts) < window.capacity,
    ensures
        run(window, attempts) == (Run {
            window: window.push_all(readings_of(attempts)),
            reports: Seq::empty(),
        }),
    decreases attempts.len(),
{
    if attempts.len() > 0 {
        let earlier = attempts.drop_last();
        lemma_run_collects(window, earlier);
        lemma_push_all_within_capacity(window, readings_of(earlier));
        if attempts.last() is Ok {
            assert(readings_of(attempts).drop_last() =~= readings_of(earlier));
        }
    }
}

/// The reading that fills the window gives rise to exactly one payload, made
/// of the readings collected up to it, and leaves the window empty; failed
/// attempts in between count for nothing.
pub proof fn lemma_run_reports_full_window(window: WindowView, attempts: Seq<Attempt>)
    requires
        collecting(window),
        attempts.len() > 0,
        attempts.last() is Ok,
        window.len() + successes(attempts) == window.capacity,
    ensures
        run(window, attempts).reports == seq![
            window_report(window.push_all(readings_of(attempts))),
        ],
        run(window, attempts).window == window.cleared(),
        run(window, attempts).window.len() == 0,
        run(window, attempts.drop_last()).reports.len() == 0,
{
    let earlier = attempts.drop_last();
    let readings = readings_of(attempts);
    assert(readings.drop_last() =~= readings_of(earlier));
    lemma_run_collects(window, earlier);
    lemma_push_all_within_capacity(window, readings_of(earlier));
    lemma_push_all_within_capacity(window, readings);
    let filled = window.push_all(readings);
    assert(filled.is_full());
    assert(run(window, attempts).reports =~= seq![window_report(filled)]);
}

/// The pipeline from sensor attempts to payloads.
#[derive(Debug)]
pub struct Pipeline {
    window: SamplingWindow,
}

impl View for Pipeline {
    type V = WindowView;

    closed spec fn view(&self) -> WindowView {
        self.window@
    }
}

impl Pipeline {
    /// The invariant of a pipeline: its window is well formed and has room.
    pub open spec fn wf(&self) -> bool {
        collecting(self@)
    }

    /// A pipeline that reports once every `window_size` successful readings.
    /// A size of zero is refused.
    pub fn new(window_size: usize) -> (result: Result<Pipeline, WindowError>)
        ensures
            window_size == 0 <==> result == Err::<Pipeline, WindowError>(
                WindowError::ZeroCapacity,
            ),
            window_size >= 1 <==> result is Ok,
            result matches Ok(pipeline) ==> pipeline.wf() && pipeline@ == WindowView::empty(
                window_size as nat,
            ),
    {
        match SamplingWindow::new(window_size) {
            Ok(window) => Ok(Pipeline { window }),
            Err(error) => Err(error),
        }
    }

    /// The number of successful readings that make one report.
    pub fn window_size(&self) -> (size: usize)
        ensures
            size == self@.capacity,
    {
        self.window.capacity()
    }

    /// The number of readings collected since the last report.
    pub fn collected(&self) -> (count: usize)
        ensures
            count == self@.len(),
    {
        self.window.len()
    }

    /// Takes in the outcome of one sensor attempt. A failure is skipped. A
    /// reading is converted and collected; if it fills the window, the
    /// window's means are encoded and returned, and the window starts over.
    pub fn feed(&mut self, attempt: Attempt) -> (payload: Option<SensorPayload>)
        requires
            old(self).wf(),
        ensures
            final(self).wf(),
            final(self)@ == feed_step(old(self)@, attempt).0,
            match feed_step(old(self)@, attempt).1 {
                Some(text) => payload matches Some(emitted) && emitted@ == text,
                None => payload is None,
            },
            attempt is Err ==> final(self)@ == old(self)@ && payload is None,
            payload is Some <==> attempt is Ok && old(self)@.len() + 1 == old(self)@.capacity,
    {
        match attempt {
            Err(_) => None,
            Ok(raw) => {
                let pushed = self.window.push(raw.convert());
                assert(pushed is Ok);
                if self.window.is_full() {
                    let means = self.window.drain_average().unwrap();
                    Some(encode(&means))
                } else {
                    None
                }
            },
        }
    }
}

} // verus!
