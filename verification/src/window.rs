//! The sampling window: a bounded accumulator of readings that yields their
//! means once it is full, and starts over.

use vstd::prelude::*;
use crate::aggregate::sum;
use crate::aggregate::AggregateReading;
use crate::aggregate::Mean;
use crate::reading::Reading;

verus! {

/// Why a window operation was refused.
#[derive(Clone, Copy, Debug, PartialEq, Eq, Structural)]
pub enum WindowError {
    /// A window must hold at least one reading.
    ZeroCapacity,
    /// The window already holds as many readings as it can.
    Full,
    /// The window does not yet hold as many readings as a report needs.
    NotFull,
}

/// What a window holds: its capacity and its two parallel sequences.
pub struct WindowView {
    /// How many readings make the window full.
    pub capacity: nat,
    /// The temperatures collected so far, oldest first.
    pub temperatures: Seq<i32>,
    /// The humidities collected so far, oldest first.
    pub humidities: Seq<i32>,
}

impl WindowView {
    /// The two sequences run in parallel and stay within the capacity, which
    /// is at least one.
    pub open spec fn wf(self) -> bool {
        &&& self.capacity >= 1
        &&& self.temperatures.len() == self.humidities.len()
        &&& self.temperatures.len() <= self.capacity
    }

    /// The number of readings held.
    pub open spec fn len(self) -> nat {
        self.temperatures.len()
    }

    /// Whether the window holds as many readings as it can.
    pub open spec fn is_full(self) -> bool {
        self.temperatures.len() == self.capacity
    }

    /// The window of the given capacity that holds nothing.
    pub open spec fn empty(capacity: nat) -> WindowView {
        WindowView { capacity, temperatures: Seq::empty(), humidities: Seq::empty() }
    }

    /// The window after one reading was offered: a full window refuses it.
    pub open spec fn push(self, reading: Reading) -> WindowView {
        if self.is_full() {
            self
        } else {
            WindowView {
                capacity: self.capacity,
                temperatures: self.temperatures.push(reading.temperature),
                humidities: self.humidities.push(reading.humidity),
            }
        }
    }

    /// The window after every reading of `readings` was offered in turn.
    pub open spec fn push_all(self, readings: Seq<Reading>) -> WindowView
        decreases readings.len(),
    {
        if readings.len() == 0 {
            self
        } else {
            self.push_all(readings.drop_last()).push(readings.last())
        }
    }

    /// The same window with both sequences emptied.
    pub open spec fn cleared(self) -> WindowView {
        WindowView::empty(self.capacity)
    }
}

/// Whatever readings are offered, in whatever number, the two sequences keep
/// the same length, and that length never exceeds the capacity: it is the
/// number offered so far, capped at the capacity.
pub proof fn lemma_push_all_within_capacity(window: WindowView, readings: Seq<Reading>)
    requires
        window.wf(),
    ensures
        window.push_all(readings).wf(),
        window.push_all(readings).capacity == window.capacity,
        window.push_all(readings).temperatures.len() == window.push_all(readings).humidities.len(),
        window.push_all(readings).len() <= window.capacity,
        window.push_all(readings).len() == if window.len() + readings.len() <= window.capacity {
            window.len() + readings.len()
        } else {
            window.capacity
        },
    decreases readings.len(),
{
    if readings.len() > 0 {
        lemma_push_all_within_capacity(window, readings.drop_last());
    }
}

/// The temperatures of a sequence of readings, in order.
pub open spec fn temperatures_of(readings: Seq<Reading>) -> Seq<i32> {
    Seq::new(readings.len(), |i: int| readings[i].temperature)
}

/// The humidities of a sequence of readings, in order.
pub open spec fn humidities_of(readings: Seq<Reading>) -> Seq<i32> {
    Seq::new(readings.len(), |i: int| readings[i].humidity)
}

/// Readings that the window has room for are all collected, in the order in
/// which they were offered, behind what the window held before: draining a
/// window that was filled from empty averages exactly the readings pushed.
pub proof fn lemma_push_all_collects(window: WindowView, readings: Seq<Reading>)
    requires
        window.wf(),
        window.len() + readings.len() <= window.capacity,
    ensures
        window.push_all(readings).temperatures == window.temperatures + temperatures_of(readings),
        window.push_all(readings).humidities == window.humidities + humidities_of(readings),
        window.push_all(readings).capacity == window.capacity,
    decreases readings.len(),
{
    if readings.len() > 0 {
        let earlier = readings.drop_last();
        lemma_push_all_collects(window, earlier);
        lemma_push_all_within_capacity(window, earlier);
        assert(window.push_all(readings).temperatures =~= window.temperatures + temperatures_of(
            readings,
        ));
        assert(window.push_all(readings).humidities =~= window.humidities + humidities_of(
            readings,
        ));
    } else {
        assert(temperatures_of(readings) =~= Seq::<i32>::empty());
        assert(humidities_of(readings) =~= Seq::<i32>::empty());
    }
}

/// A fixed-capacity accumulator of readings pending aggregation.
#[derive(Debug)]
pub struct SamplingWindow {
    capacity: usize,
    temperatures: Vec<i32>,
    humidities: Vec<i32>,
}

impl View for SamplingWindow {
    type V = WindowView;

    closed spec fn view(&self) -> WindowView {
        WindowView {
            capacity: self.capacity as nat,
            temperatures: self.temperatures@,
            humidities: self.humidities@,
        }
    }
}

impl SamplingWindow {
    /// The invariant of a window: that of what it holds.
    pub open spec fn wf(&self) -> bool {
        self@.wf()
    }

    /// An empty window that is full after `capacity` readings. A capacity of
    /// zero is refused.
    pub fn new(capacity: usize) -> (result: Result<SamplingWindow, WindowError>)
        ensures
            capacity == 0 <==> result == Err::<SamplingWindow, WindowError>(
                WindowError::ZeroCapacity,
            ),
            capacity >= 1 <==> result is Ok,
            result matches Ok(window) ==> window.wf() && window@ == WindowView::empty(
                capacity as nat,
            ),
    {
        if capacity == 0 {
            Err(WindowError::ZeroCapacity)
        } else {
            Ok(SamplingWindow { capacity, temperatures: Vec::new(), humidities: Vec::new() })
        }
    }

    /// How many readings make the window full.
    pub fn capacity(&self) -> (capacity: usize)
        ensures
            capacity == self@.capacity,
    {
        self.capacity
    }

    /// The number of readings held.
    pub fn len(&self) -> (len: usize)
        ensures
            len == self@.len(),
    {
        self.temperatures.len()
    }

    /// Whether the window holds no reading.
    pub fn is_empty(&self) -> (empty: bool)
        ensures
            empty == (self@.len() == 0),
    {
        self.temperatures.len() == 0
    }

    /// Whether the window holds as many readings as it can.
    pub fn is_full(&self) -> (full: bool)
        ensures
            full == self@.is_full(),
    {
        self.temperatures.len() == self.capacity
    }

    /// Appends a reading to both sequences. A full window refuses the reading
    /// and stays as it is.
    pub fn push(&mut self, reading: Reading) -> (result: Result<(), WindowError>)
        requires
            old(self).wf(),
        ensures
            final(self).wf(),
            final(self)@ == old(self)@.push(reading),
            final(self)@.temperatures.len() == final(self)@.humidities.len(),
            final(self)@.len() <= final(self)@.capacity,
            old(self)@.is_full() <==> result == Err::<(), WindowError>(WindowError::Full),
            !old(self)@.is_full() <==> result is Ok,
            result is Ok ==> final(self)@.len() == old(self)@.len() + 1,
    {
        if self.temperatures.len() == self.capacity {
            Err(WindowError::Full)
        } else {
            self.temperatures.push(reading.temperature);
            self.humidities.push(reading.humidity);
            Ok(())
        }
    }

    /// Yields the exact means of a full window and empties it. A window that
    /// is not full refuses and stays as it is.
    pub fn drain_average(&mut self) -> (result: Result<AggregateReading, WindowError>)
        requires
            old(self).wf(),
        ensures
            final(self).wf(),
            old(self)@.is_full() <==> result is Ok,
            !old(self)@.is_full() <==> result == Err::<AggregateReading, WindowError>(
                WindowError::NotFull,
            ),
            result is Err ==> final(self)@ == old(self)@,
            result matches Ok(means) ==> {
                &&& final(self)@ == old(self)@.cleared()
                &&& final(self)@.len() == 0
                &&& means.temperature.wf()
                &&& means.temperature.total() == sum(old(self)@.temperatures)
                &&& means.temperature.samples() == old(self)@.capacity
                &&& means.humidity.wf()
                &&& means.humidity.total() == sum(old(self)@.humidities)
                &&& means.humidity.samples() == old(self)@.capacity
            },
    {
        if self.temperatures.len() != self.capacity {
            return Err(WindowError::NotFull);
        }
        let temperature = Mean::of(self.temperatures.as_slice()).unwrap();
        let humidity = Mean::of(self.humidities.as_slice()).unwrap();
        self.temperatures.clear();
        self.humidities.clear();
        Ok(AggregateReading { temperature, humidity })
    }
}

} // verus!
