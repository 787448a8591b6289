//! The metering stage: the running total, the rate of the latest update,
//! and the timer that paces redraws of the status line.
//!
//! Time is handed in as milliseconds on a monotonic clock; the caller reads
//! the clock, this module decides.
use vstd::prelude::*;
use crate::units::{bytes_text, clock_text, rate_text, format_bytes, format_clock, format_rate};

verus! {

/// How often the status line is redrawn, in milliseconds.
pub const RENDER_PERIOD_MS: u64 = 1000;

/// The throughput state owned by the metering stage.
pub struct Stats {
    total_bytes: u64,
    sample_bytes: u64,
    sample_ms: u64,
    start_ms: u64,
    last_ms: u64,
    delta_ms: u64,
    period_ms: u64,
    countdown_ms: u64,
    ready: bool,
}

/// What the metering loop does after one message.
#[derive(PartialEq, Eq, Structural, Debug, Clone, Copy)]
pub enum MeterAction {
    /// Redraw the status line, then wait for the next message.
    Render,
    /// Wait for the next message.
    Wait,
    /// Stop; print a closing newline when `newline` is set.
    Finish { newline: bool },
}

/// Milliseconds from `earlier` to `later`, zero if the clock went back.
pub open spec fn elapsed_ms(earlier: u64, later: u64) -> nat {
    if later >= earlier { (later - earlier) as nat } else { 0 }
}

/// A count received on the metering channel ends the stage when it is the
/// sentinel `0` or the channel is closed (`None`).
pub open spec fn ends_meter(msg: Option<usize>) -> bool {
    match msg {
        Some(n) => n == 0,
        None => true,
    }
}

impl Stats {
    /// Bytes counted so far.
    pub closed spec fn total(&self) -> nat {
        self.total_bytes as nat
    }

    /// Bytes of the latest update that took a measurable time; the rate is
    /// these bytes per `sample_ms()` milliseconds.
    pub closed spec fn sample_bytes(&self) -> nat {
        self.sample_bytes as nat
    }

    /// Milliseconds that the latest measurable update took.
    pub closed spec fn sample_ms(&self) -> nat {
        self.sample_ms as nat
    }

    /// Clock time at which metering began.
    pub closed spec fn start(&self) -> u64 {
        self.start_ms
    }

    /// Clock time of the latest update.
    pub closed spec fn last(&self) -> u64 {
        self.last_ms
    }

    /// Milliseconds between the latest update and the one before.
    pub closed spec fn delta(&self) -> nat {
        self.delta_ms as nat
    }

    /// Milliseconds left before the next render falls due.
    pub closed spec fn countdown(&self) -> nat {
        self.countdown_ms as nat
    }

    /// Milliseconds between renders.
    pub closed spec fn period(&self) -> nat {
        self.period_ms as nat
    }

    /// Whether the status line is to be redrawn.
    pub closed spec fn render_due(&self) -> bool {
        self.ready
    }

    /// The render period is `RENDER_PERIOD_MS`, the countdown never exceeds
    /// it, and the rate's time is never zero.
    pub open spec fn wf(&self) -> bool {
        &&& self.period() == RENDER_PERIOD_MS
        &&& self.countdown() <= self.period()
        &&& self.sample_ms() > 0
    }

    /// `new` is `self` after `num_read` bytes arrived at clock time `now_ms`:
    /// the total grows by them; the rate becomes these bytes over the time
    /// since the previous update, or stays where no time passed; the
    /// countdown runs down by the elapsed time, and where it would go below
    /// zero it restarts at the period and a render falls due.
    pub open spec fn update_spec(self, new: Self, num_read: nat, now_ms: u64) -> bool {
        &&& new.total() == self.total() + num_read
        &&& new.start() == self.start()
        &&& new.period() == self.period()
        &&& new.last() == now_ms
        &&& new.delta() == elapsed_ms(self.last(), now_ms)
        &&& new.delta() == 0 ==> {
            &&& new.sample_bytes() == self.sample_bytes()
            &&& new.sample_ms() == self.sample_ms()
        }
        &&& new.delta() > 0 ==> {
            &&& new.sample_bytes() == num_read
            &&& new.sample_ms() == new.delta()
        }
        &&& new.delta() > self.countdown() ==> {
            &&& new.countdown() == new.period()
            &&& new.render_due()
        }
        &&& new.delta() <= self.countdown() ==> {
            &&& new.countdown() == self.countdown() - new.delta()
            &&& new.render_due() == self.render_due()
        }
    }

    /// Fresh state at clock time `now_ms`: nothing counted, a render due.
    pub fn new(now_ms: u64) -> (r: Self)
        ensures
            r.wf(),
            r.total() == 0,
            r.sample_bytes() == 0,
            r.period() == RENDER_PERIOD_MS,
            r.start() == now_ms,
            r.last() == now_ms,
            r.delta() == 0,
            r.countdown() == 0,
            r.render_due(),
    {
        Stats {
            total_bytes: 0,
            sample_bytes: 0,
            sample_ms: 1,
            start_ms: now_ms,
            last_ms: now_ms,
            delta_ms: 0,
            period_ms: RENDER_PERIOD_MS,
            countdown_ms: 0,
            ready: true,
        }
    }

    /// Accounts for `num_read` bytes that arrived at clock time `now_ms`
    /// (see `update_spec`).
    pub fn update(&mut self, num_read: usize, now_ms: u64)
        requires
            old(self).wf(),
            old(self).total() + num_read <= u64::MAX,
        ensures
            final(self).wf(),
            old(self).update_spec(*final(self), num_read as nat, now_ms),
    {
        self.total_bytes = self.total_bytes + num_read as u64;
        self.delta_ms = if now_ms >= self.last_ms { now_ms - self.last_ms } else { 0 };
        self.last_ms = now_ms;
        if self.delta_ms > self.countdown_ms {
            self.ready = true;
            self.countdown_ms = self.period_ms;
        } else {
            self.countdown_ms = self.countdown_ms - self.delta_ms;
        }
        if self.delta_ms > 0 {
            self.sample_bytes = num_read as u64;
            self.sample_ms = self.delta_ms;
        }
    }

    /// Handles one message of the metering channel (`None`: the channel
    /// closed) at clock time `now_ms`, and says what the loop does next.
    ///
    /// The sentinel and a closed channel end the stage without touching the
    /// totals; any other count is added, and a render is asked for when one
    /// is due and output is not silenced.
    pub fn on_message(&mut self, msg: Option<usize>, now_ms: u64, silent: bool) -> (r: MeterAction)
        requires
            old(self).wf(),
            !ends_meter(msg) ==> old(self).total() + msg.unwrap() <= u64::MAX,
        ensures
            final(self).wf(),
            ends_meter(msg) ==> {
                &&& r == MeterAction::Finish { newline: !silent }
                &&& *final(self) == *old(self)
            },
            !ends_meter(msg) ==> {
                &&& old(self).update_spec(*final(self), msg.unwrap() as nat, now_ms)
                &&& r == (if !silent && final(self).render_due() {
                    MeterAction::Render
                } else {
                    MeterAction::Wait
                })
            },
    {
        let n: usize = match msg {
            Some(n) => n,
            None => 0,
        };
        if n == 0 {
            return MeterAction::Finish { newline: !silent };
        }
        self.update(n, now_ms);
        if !silent && self.ready {
            MeterAction::Render
        } else {
            MeterAction::Wait
        }
    }

    /// The three parts of the status line at clock time `now_ms`: the
    /// scaled total, the elapsed whole seconds as `H:MM:SS`, and the scaled
    /// rate rounded to the nearest integer. Clears the render-due flag and
    /// changes nothing else.
    pub fn status_line(&mut self, now_ms: u64) -> (r: (String, String, String))
        requires
            old(self).wf(),
        ensures
            final(self).wf(),
            r.0@ == bytes_text(old(self).total()),
            r.1@ == clock_text(elapsed_ms(old(self).start(), now_ms) / 1000),
            r.2@ == rate_text(old(self).sample_bytes() * 1000, old(self).sample_ms()),
            !final(self).render_due(),
            final(self).total() == old(self).total(),
            final(self).sample_bytes() == old(self).sample_bytes(),
            final(self).sample_ms() == old(self).sample_ms(),
            final(self).period() == old(self).period(),
            final(self).start() == old(self).start(),
            final(self).last() == old(self).last(),
            final(self).delta() == old(self).delta(),
            final(self).countdown() == old(self).countdown(),
    {
        let elapsed: u64 = if now_ms >= self.start_ms { now_ms - self.start_ms } else { 0 };
        let bytes = format_bytes(self.total_bytes as u128);
        let clock = format_clock(elapsed / 1000);
        let rate = format_rate(self.sample_bytes, self.sample_ms);
        self.ready = false;
        (bytes, clock, rate)
    }

    /// Bytes counted so far.
    pub fn total_bytes(&self) -> (r: u64)
        ensures
            r == self.total(),
    {
        self.total_bytes
    }

    /// Whether a render is due.
    pub fn is_ready(&self) -> (r: bool)
        ensures
            r == self.render_due(),
    {
        self.ready
    }
}

} // verus!
