//! Per-tick orchestration: sample in, report and power bookkeeping out.
//!
//! Each poll tick while a peer is connected, the firmware loop hands
//! the pipeline the sensor's optional sample and the inactivity
//! timer's reading; the pipeline answers with the report to notify (if
//! any motion arrived), what to do with the timer, and how fast to
//! poll next. All I/O - sensor, timer, transport - stays with the
//! caller.

use vstd::prelude::*;
use crate::accel::{AccelCurve, CurvePoint, default_points, spec_accelerate};
use crate::power::{PollCadence, PowerState, Scheduler, TimerCmd};
use crate::report::{encode, spec_encode, MouseReport};

verus! {

/// One relative-motion sample from the touch sensor.
#[derive(Clone, Copy, Debug, PartialEq, Eq, Structural)]
pub struct RawSample {
    pub x_delta: i16,
    pub y_delta: i16,
    pub primary_pressed: bool,
    pub secondary_pressed: bool,
}

/// The report a curve produces for one sample: deltas accelerated at
/// their combined speed, then clamped and packed.
pub open spec fn spec_report_for(points: Seq<CurvePoint>, s: RawSample) -> MouseReport {
    let scaled = spec_accelerate(points, s.x_delta as int, s.y_delta as int);
    spec_encode(s.primary_pressed, s.secondary_pressed, scaled.0, scaled.1)
}

/// What one tick decided: the report to send, if any, what to do with
/// the inactivity timer, and how fast to poll until the next tick.
pub struct TickOutcome {
    pub report: Option<MouseReport>,
    pub timer_cmd: TimerCmd,
    pub cadence: PollCadence,
}

/// The verified core of the firmware loop: the acceleration curve and
/// the power scheduler, owned as one explicit state value.
pub struct Pipeline {
    pub curve: AccelCurve,
    pub scheduler: Scheduler,
}

impl Pipeline {
    /// The pipeline is well formed when its curve is.
    pub open spec fn wf(&self) -> bool {
        self.curve.wf()
    }

    /// A pipeline as at boot: the default curve, device asleep.
    pub fn new() -> (p: Pipeline)
        ensures
            p.wf(),
            p.curve.points@ == default_points(),
            p.scheduler == (Scheduler { state: PowerState::Sleep, waiting_for_sleep: false }),
    {
        Pipeline { curve: AccelCurve::default(), scheduler: Scheduler::new() }
    }

    /// One poll tick: if a sample arrived, accelerate and encode it;
    /// either way, advance the power scheduler and report what the
    /// caller must do with the timer and how fast to poll next.
    pub fn tick(&mut self, sample: Option<RawSample>, elapsed_ticks: u64, tick_hz: u64) -> (out:
        TickOutcome)
        requires
            old(self).wf(),
            tick_hz > 0,
        ensures
            final(self).curve == old(self).curve,
            final(self).wf(),
            final(self).scheduler == old(self).scheduler.spec_step(sample is Some, elapsed_ticks,
                tick_hz).0,
            out.timer_cmd == old(self).scheduler.spec_step(sample is Some, elapsed_ticks,
                tick_hz).1,
            out.cadence == final(self).scheduler.spec_cadence(),
            sample matches Some(s) ==> out.report == Some(spec_report_for(old(self).curve.points@,
                s)),
            sample is None ==> out.report is None,
    {
        let report: Option<MouseReport> = match sample {
            Some(s) => {
                let scaled = self.curve.accelerate(s.x_delta, s.y_delta);
                Some(encode(s.primary_pressed, s.secondary_pressed, scaled.0, scaled.1))
            },
            None => None,
        };
        let timer_cmd = self.scheduler.on_tick(sample.is_some(), elapsed_ticks, tick_hz);
        let cadence = self.scheduler.cadence();
        TickOutcome { report, timer_cmd, cadence }
    }
}

/// The reports a run of samples produces, one per sample, in order.
pub open spec fn spec_reports_for(points: Seq<CurvePoint>, samples: Seq<RawSample>) -> Seq<
    MouseReport,
> {
    samples.map(|i: int, s: RawSample| spec_report_for(points, s))
}

/// Law: the pipeline is deterministic. A run of N samples yields
/// exactly N reports, each a function of its own sample and the curve
/// alone, so identical samples encode to byte-identical reports.
pub proof fn lemma_reports_deterministic(points: Seq<CurvePoint>, samples: Seq<RawSample>)
    ensures
        spec_reports_for(points, samples).len() == samples.len(),
        forall|i: int|
            0 <= i < samples.len() ==> spec_reports_for(points, samples)[i] == spec_report_for(
                points, samples[i]),
        forall|i: int, j: int|
            0 <= i < samples.len() && 0 <= j < samples.len() && samples[i] == samples[j]
                ==> spec_reports_for(points, samples)[i].spec_bytes() == spec_reports_for(points,
                samples)[j].spec_bytes(),
{
}

} // verus!
