use vstd::prelude::*;

use crate::timing::{after_add, can_average, mean_of, TimingQueue};

verus! {

/// The time from `start` to `now`, in nanoseconds; zero where `now` is earlier, as with
/// `std::time::Instant::elapsed`.
pub open spec fn elapsed(start: u64, now: u64) -> u64 {
    if now >= start {
        (now - start) as u64
    } else {
        0
    }
}

/// What an event that ends a timed step does to the step's queue and start time: where the
/// step was started, the time since then is added and the start is cleared; otherwise nothing
/// changes.
pub open spec fn ended(
    times_after: Seq<u64>,
    start_after: Option<u64>,
    times_before: Seq<u64>,
    start_before: Option<u64>,
    capacity: usize,
    now: u64,
) -> bool {
    match start_before {
        Some(t) => {
            &&& times_after == after_add(times_before, capacity, elapsed(t, now))
            &&& start_after.is_none()
        },
        None => {
            &&& times_after == times_before
            &&& start_after.is_none()
        },
    }
}

/// A queue can be averaged without a panic.
pub open spec fn averageable(q: TimingQueue) -> bool {
    can_average(q.times())
}

/// Timing of the steps of drawing frames: the time between two draw calls and how long
/// acquiring, discarding, rendering and submitting a frame take, each averaged over the last
/// few frames. Every event carries the current time, in nanoseconds from any fixed instant.
pub struct FrameMonitor {
    draw_call_start_time: Option<u64>,
    surface_acquisition_start_time: Option<u64>,
    render_start_time: Option<u64>,
    submit_start_time: Option<u64>,
    time_between_draws: TimingQueue,
    surface_acquisition_time: TimingQueue,
    surface_discard_time: TimingQueue,
    render_time: TimingQueue,
    submit_time: TimingQueue,
}

impl FrameMonitor {
    /// When the last draw call started.
    pub closed spec fn draw_start(&self) -> Option<u64> {
        self.draw_call_start_time
    }

    /// When the pending surface acquisition started.
    pub closed spec fn acquisition_start(&self) -> Option<u64> {
        self.surface_acquisition_start_time
    }

    /// When the pending rendering started.
    pub closed spec fn render_start(&self) -> Option<u64> {
        self.render_start_time
    }

    /// When the pending submission started.
    pub closed spec fn submit_start(&self) -> Option<u64> {
        self.submit_start_time
    }

    /// The times between draw calls.
    pub closed spec fn draws(&self) -> TimingQueue {
        self.time_between_draws
    }

    /// The times that acquiring a surface took.
    pub closed spec fn acquisitions(&self) -> TimingQueue {
        self.surface_acquisition_time
    }

    /// The times until an acquired surface was discarded.
    pub closed spec fn discards(&self) -> TimingQueue {
        self.surface_discard_time
    }

    /// The times that rendering took.
    pub closed spec fn renders(&self) -> TimingQueue {
        self.render_time
    }

    /// The times that submitting took.
    pub closed spec fn submits(&self) -> TimingQueue {
        self.submit_time
    }

    /// A monitor that averages over the last `av_count` frames, with nothing measured yet.
    pub fn new(av_count: usize) -> (r: Self)
        ensures
            r.draw_start().is_none(),
            r.acquisition_start().is_none(),
            r.render_start().is_none(),
            r.submit_start().is_none(),
            r.draws().times().len() == 0 && r.draws().capacity() == av_count,
            r.acquisitions().times().len() == 0 && r.acquisitions().capacity() == av_count,
            r.discards().times().len() == 0 && r.discards().capacity() == av_count,
            r.renders().times().len() == 0 && r.renders().capacity() == av_count,
            r.submits().times().len() == 0 && r.submits().capacity() == av_count,
    {
        Self {
            draw_call_start_time: None,
            surface_acquisition_start_time: None,
            render_start_time: None,
            submit_start_time: None,
            time_between_draws: TimingQueue::new(av_count),
            surface_acquisition_time: TimingQueue::new(av_count),
            surface_discard_time: TimingQueue::new(av_count),
            render_time: TimingQueue::new(av_count),
            submit_time: TimingQueue::new(av_count),
        }
    }

    /// A draw call starts at `now`: the time since the previous one, if any, is recorded.
    pub fn start_draw_call(&mut self, now: u64)
        ensures
            final(self).draw_start() == Some(now),
            final(self).draws().capacity() == old(self).draws().capacity(),
            final(self).draws().times() == match old(self).draw_start() {
                Some(t) => after_add(
                    old(self).draws().times(),
                    old(self).draws().capacity(),
                    elapsed(t, now),
                ),
                None => old(self).draws().times(),
            },
            final(self).acquisition_start() == old(self).acquisition_start(),
            final(self).render_start() == old(self).render_start(),
            final(self).submit_start() == old(self).submit_start(),
            final(self).acquisitions() == old(self).acquisitions(),
            final(self).discards() == old(self).discards(),
            final(self).renders() == old(self).renders(),
            final(self).submits() == old(self).submits(),
    {
        if let Some(time) = self.draw_call_start_time {
            self.time_between_draws.add_time(now.saturating_sub(time));
        }
        self.draw_call_start_time = Some(now);
    }

    /// Acquiring a surface starts at `now`.
    pub fn start_surface_acquisition(&mut self, now: u64)
        ensures
            final(self).acquisition_start() == Some(now),
            final(self).draw_start() == old(self).draw_start(),
            final(self).render_start() == old(self).render_start(),
            final(self).submit_start() == old(self).submit_start(),
            final(self).draws() == old(self).draws(),
            final(self).acquisitions() == old(self).acquisitions(),
            final(self).discards() == old(self).discards(),
            final(self).renders() == old(self).renders(),
            final(self).submits() == old(self).submits(),
    {
        self.surface_acquisition_start_time = Some(now);
    }

    /// The surface was acquired at `now`: the time the acquisition took is recorded.
    pub fn surface_acquired(&mut self, now: u64)
        ensures
            ended(
                final(self).acquisitions().times(),
                final(self).acquisition_start(),
                old(self).acquisitions().times(),
                old(self).acquisition_start(),
                old(self).acquisitions().capacity(),
                now,
            ),
            final(self).acquisitions().capacity() == old(self).acquisitions().capacity(),
            final(self).draw_start() == old(self).draw_start(),
            final(self).render_start() == old(self).render_start(),
            final(self).submit_start() == old(self).submit_start(),
            final(self).draws() == old(self).draws(),
            final(self).discards() == old(self).discards(),
            final(self).renders() == old(self).renders(),
            final(self).submits() == old(self).submits(),
    {
        let time = match self.surface_acquisition_start_time {
            Some(time) => time,
            None => {
                return ;
            },
        };
        self.surface_acquisition_time.add_time(now.saturating_sub(time));
        self.surface_acquisition_start_time = None;
    }

    /// The acquired surface was discarded at `now`: the time since the acquisition started is
    /// recorded as a discard.
    pub fn surface_discarded(&mut self, now: u64)
        ensures
            ended(
                final(self).discards().times(),
                final(self).acquisition_start(),
                old(self).discards().times(),
                old(self).acquisition_start(),
                old(self).discards().capacity(),
                now,
            ),
            final(self).discards().capacity() == old(self).discards().capacity(),
            final(self).draw_start() == old(self).draw_start(),
            final(self).render_start() == old(self).render_start(),
            final(self).submit_start() == old(self).submit_start(),
            final(self).draws() == old(self).draws(),
            final(self).acquisitions() == old(self).acquisitions(),
            final(self).renders() == old(self).renders(),
            final(self).submits() == old(self).submits(),
    {
        let time = match self.surface_acquisition_start_time {
            Some(time) => time,
            None => {
                return ;
            },
        };
        self.surface_discard_time.add_time(now.saturating_sub(time));
        self.surface_acquisition_start_time = None;
    }

    /// Rendering starts at `now`.
    pub fn start_rendering(&mut self, now: u64)
        ensures
            final(self).render_start() == Some(now),
            final(self).draw_start() == old(self).draw_start(),
            final(self).acquisition_start() == old(self).acquisition_start(),
            final(self).submit_start() == old(self).submit_start(),
            final(self).draws() == old(self).draws(),
            final(self).acquisitions() == old(self).acquisitions(),
            final(self).discards() == old(self).discards(),
            final(self).renders() == old(self).renders(),
            final(self).submits() == old(self).submits(),
    {
        self.render_start_time = Some(now);
    }

    /// Rendering ended at `now`: the time it took is recorded.
    pub fn end_rendering(&mut self, now: u64)
        ensures
            ended(
                final(self).renders().times(),
                final(self).render_start(),
                old(self).renders().times(),
                old(self).render_start(),
                old(self).renders().capacity(),
                now,
            ),
            final(self).renders().capacity() == old(self).renders().capacity(),
            final(self).draw_start() == old(self).draw_start(),
            final(self).acquisition_start() == old(self).acquisition_start(),
            final(self).submit_start() == old(self).submit_start(),
            final(self).draws() == old(self).draws(),
            final(self).acquisitions() == old(self).acquisitions(),
            final(self).discards() == old(self).discards(),
            final(self).submits() == old(self).submits(),
    {
        let time = match self.render_start_time {
            Some(time) => time,
            None => {
                return ;
            },
        };
        self.render_time.add_time(now.saturating_sub(time));
        self.render_start_time = None;
    }

    /// Submitting starts at `now`.
    pub fn start_submitting(&mut self, now: u64)
        ensures
            final(self).submit_start() == Some(now),
            final(self).draw_start() == old(self).draw_start(),
            final(self).acquisition_start() == old(self).acquisition_start(),
            final(self).render_start() == old(self).render_start(),
            final(self).draws() == old(self).draws(),
            final(self).acquisitions() == old(self).acquisitions(),
            final(self).discards() == old(self).discards(),
            final(self).renders() == old(self).renders(),
            final(self).submits() == old(self).submits(),
    {
        self.submit_start_time = Some(now);
    }

    /// Submitting ended at `now`: the time it took is recorded.
    pub fn end_submitting(&mut self, now: u64)
        ensures
            ended(
                final(self).submits().times(),
                final(self).submit_start(),
                old(self).submits().times(),
                old(self).submit_start(),
                old(self).submits().capacity(),
                now,
            ),
            final(self).submits().capacity() == old(self).submits().capacity(),
            final(self).draw_start() == old(self).draw_start(),
            final(self).acquisition_start() == old(self).acquisition_start(),
            final(self).render_start() == old(self).render_start(),
            final(self).draws() == old(self).draws(),
            final(self).acquisitions() == old(self).acquisitions(),
            final(self).discards() == old(self).discards(),
            final(self).renders() == old(self).renders(),
    {
        let time = match self.submit_start_time {
            Some(time) => time,
            None => {
                return ;
            },
        };
        self.submit_time.add_time(now.saturating_sub(time));
        self.submit_start_time = None;
    }

    /// Whether every mean of the monitor may be taken: `averageable` holds of all five queues.
    pub fn averages_defined(&self) -> (r: bool)
        ensures
            r == (averageable(self.draws()) && averageable(self.acquisitions()) && averageable(
                self.discards(),
            ) && averageable(self.renders()) && averageable(self.submits())),
    {
        self.time_between_draws.is_averageable() && self.surface_acquisition_time.is_averageable()
            && self.surface_discard_time.is_averageable() && self.render_time.is_averageable()
            && self.submit_time.is_averageable()
    }

    /// The mean time between draw calls over the last frames, in nanoseconds.
    pub fn get_time_between_draws(&self) -> (r: Option<u64>)
        requires
            averageable(self.draws()),
        ensures
            r == mean_of(self.draws().times()),
    {
        self.time_between_draws.get_average()
    }

    /// The mean time that acquiring a surface took over the last frames, in nanoseconds.
    pub fn get_surface_acquisition_time(&self) -> (r: Option<u64>)
        requires
            averageable(self.acquisitions()),
        ensures
            r == mean_of(self.acquisitions().times()),
    {
        self.surface_acquisition_time.get_average()
    }

    /// The mean time until an acquired surface was discarded, in nanoseconds.
    pub fn get_surface_discard_time(&self) -> (r: Option<u64>)
        requires
            averageable(self.discards()),
        ensures
            r == mean_of(self.discards().times()),
    {
        self.surface_discard_time.get_average()
    }

    /// The mean time that rendering took over the last frames, in nanoseconds.
    pub fn get_render_time(&self) -> (r: Option<u64>)
        requires
            averageable(self.renders()),
        ensures
            r == mean_of(self.renders().times()),
    {
        self.render_time.get_average()
    }

    /// The mean time that submitting took over the last frames, in nanoseconds.
    pub fn get_submit_time(&self) -> (r: Option<u64>)
        requires
            averageable(self.submits()),
        ensures
            r == mean_of(self.submits().times()),
    {
        self.submit_time.get_average()
    }
}

/// Starting a step at `t1` and ending it at `t2` records `t2 - t1` (or zero where `t2` is
/// earlier) in the step's queue and leaves the step idle, whatever was pending before.
pub proof fn law_start_then_end(
    times0: Seq<u64>,
    start1: Option<u64>,
    times1: Seq<u64>,
    start2: Option<u64>,
    times2: Seq<u64>,
    capacity: usize,
    t1: u64,
    t2: u64,
)
    requires
        start1 == Some(t1),
        times1 == times0,
        ended(times2, start2, times1, start1, capacity, t2),
    ensures
        times2 == after_add(times0, capacity, elapsed(t1, t2)),
        start2.is_none(),
{
}

/// An end event with no pending start records nothing: ending a step twice records it once.
pub proof fn law_end_twice_records_once(
    times0: Seq<u64>,
    start0: Option<u64>,
    times1: Seq<u64>,
    start1: Option<u64>,
    times2: Seq<u64>,
    start2: Option<u64>,
    capacity: usize,
    t1: u64,
    t2: u64,
)
    requires
        ended(times1, start1, times0, start0, capacity, t1),
        ended(times2, start2, times1, start1, capacity, t2),
    ensures
        times2 == times1,
        start2.is_none(),
{
}

} // verus!
