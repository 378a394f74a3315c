//! The reports of a benchmark while its clients run: one a second, of what was sent and
//! echoed since the last, and the totals at the end.

use crate::bench::RateMeter;
use vstd::prelude::*;

verus! {

/// The time between two reports, in nanoseconds: 1 s.
pub const REPORT_PAUSE_NANOS: u128 = 1_000_000_000;

/// Where the reports stand: what the program was last told to do.
#[derive(Debug, Clone, Copy, PartialEq, Eq, Structural)]
pub enum ReporterPhase {
    /// Nothing has been done yet.
    Idle,
    /// It is being asked for how long the benchmark has run.
    AskingElapsed,
    Sleeping,
    /// The totals are being read for a report.
    ReadingTotals,
    Reporting,
    Stopping,
    /// The totals are being read once the clients have stopped.
    ReadingFinal,
    /// The benchmark has ended.
    Finished,
}

/// What became of what the program was told to do.
#[derive(Debug, Clone, Copy, PartialEq, Eq, Structural)]
pub enum ReporterInput {
    /// It is done; what it returned, if anything, does not matter.
    Done,
    /// For how long the benchmark has run, in nanoseconds.
    Elapsed(u128),
    /// How many messages all clients have sent and how many echoes they got.
    Totals { sent: u64, echoed: u64 },
}

/// What the program is to do next.
#[derive(Debug, Clone, Copy, PartialEq, Eq, Structural)]
pub enum ReporterAction {
    AskElapsed,
    /// Pause for this many nanoseconds.
    Sleep(u128),
    ReadTotals,
    /// Tell both totals and how far they have risen since the last report.
    Report { sent: u64, echoed: u64, more_sent: u64, more_echoed: u64 },
    /// Stop the clients and wait for them.
    Stop,
    /// Tell the totals at the end.
    Finish { sent: u64, echoed: u64 },
}

/// The decisions on the reports of a benchmark.
#[derive(Debug, Clone, Copy, PartialEq, Eq, Structural)]
pub struct Reporter {
    pub duration_nanos: u128,
    /// The totals that were last reported.
    pub meter: RateMeter,
    pub phase: ReporterPhase,
}

impl Reporter {
    /// Whether `input` can be what became of what the program was told to do. The totals do
    /// not fall.
    pub open spec fn expects(self, input: ReporterInput) -> bool {
        match self.phase {
            ReporterPhase::AskingElapsed => input is Elapsed,
            ReporterPhase::ReadingTotals | ReporterPhase::ReadingFinal => {
                &&& input matches ReporterInput::Totals { sent, echoed }
                &&& self.meter.last_sent <= sent
                &&& self.meter.last_echoed <= echoed
            },
            ReporterPhase::Finished => false,
            _ => input is Done,
        }
    }

    /// The phase after `input`, and what it stands for.
    pub open spec fn decision(self, input: ReporterInput) -> (ReporterPhase, ReporterAction) {
        match self.phase {
            ReporterPhase::Idle | ReporterPhase::Reporting => (
                ReporterPhase::AskingElapsed,
                ReporterAction::AskElapsed,
            ),
            ReporterPhase::AskingElapsed => if input->Elapsed_0 < self.duration_nanos {
                (ReporterPhase::Sleeping, ReporterAction::Sleep(REPORT_PAUSE_NANOS))
            } else {
                (ReporterPhase::Stopping, ReporterAction::Stop)
            },
            ReporterPhase::Sleeping => (ReporterPhase::ReadingTotals, ReporterAction::ReadTotals),
            ReporterPhase::ReadingTotals => (
                ReporterPhase::Reporting,
                ReporterAction::Report {
                    sent: input->sent,
                    echoed: input->echoed,
                    more_sent: (input->sent - self.meter.last_sent) as u64,
                    more_echoed: (input->echoed - self.meter.last_echoed) as u64,
                },
            ),
            ReporterPhase::Stopping => (ReporterPhase::ReadingFinal, ReporterAction::ReadTotals),
            ReporterPhase::ReadingFinal => (
                ReporterPhase::Finished,
                ReporterAction::Finish { sent: input->sent, echoed: input->echoed },
            ),
            ReporterPhase::Finished => (ReporterPhase::Finished, ReporterAction::Stop),
        }
    }

    /// The reports after `input`.
    pub open spec fn after(self, input: ReporterInput) -> Reporter {
        Reporter {
            phase: self.decision(input).0,
            meter: match self.action(input) {
                ReporterAction::Report { sent, echoed, .. } => RateMeter {
                    last_sent: sent,
                    last_echoed: echoed,
                },
                _ => self.meter,
            },
            ..self
        }
    }

    /// What follows `input`.
    pub open spec fn action(self, input: ReporterInput) -> ReporterAction {
        self.decision(input).1
    }

    /// The reports of a benchmark that runs for a time given in nanoseconds.
    pub fn new(duration_nanos: u128) -> (r: Reporter)
        ensures
            r.duration_nanos == duration_nanos,
            r.meter.last_sent == 0,
            r.meter.last_echoed == 0,
            r.phase is Idle,
    {
        Reporter { duration_nanos, meter: RateMeter::new(), phase: ReporterPhase::Idle }
    }

    /// Takes what became of the last action and decides the next one.
    pub fn step(&mut self, input: ReporterInput) -> (r: ReporterAction)
        requires
            old(self).expects(input),
        ensures
            *final(self) == old(self).after(input),
            r == old(self).action(input),
    {
        match (self.phase, input) {
            (ReporterPhase::Idle, _) | (ReporterPhase::Reporting, _) => {
                self.phase = ReporterPhase::AskingElapsed;
                ReporterAction::AskElapsed
            },
            (ReporterPhase::AskingElapsed, ReporterInput::Elapsed(nanos)) => {
                if nanos < self.duration_nanos {
                    self.phase = ReporterPhase::Sleeping;
                    ReporterAction::Sleep(REPORT_PAUSE_NANOS)
                } else {
                    self.phase = ReporterPhase::Stopping;
                    ReporterAction::Stop
                }
            },
            (ReporterPhase::Sleeping, _) => {
                self.phase = ReporterPhase::ReadingTotals;
                ReporterAction::ReadTotals
            },
            (ReporterPhase::ReadingTotals, ReporterInput::Totals { sent, echoed }) => {
                let mut meter: RateMeter = self.meter;
                let (more_sent, more_echoed) = meter.report(sent, echoed);
                self.meter = meter;
                self.phase = ReporterPhase::Reporting;
                ReporterAction::Report { sent, echoed, more_sent, more_echoed }
            },
            (ReporterPhase::Stopping, _) => {
                self.phase = ReporterPhase::ReadingFinal;
                ReporterAction::ReadTotals
            },
            (ReporterPhase::ReadingFinal, ReporterInput::Totals { sent, echoed }) => {
                self.phase = ReporterPhase::Finished;
                ReporterAction::Finish { sent, echoed }
            },
            _ => ReporterAction::Stop,
        }
    }
}

/// Whether each input is one that is expected when it comes.
pub open spec fn all_expected(run: Reporter, inputs: Seq<ReporterInput>) -> bool
    decreases inputs.len(),
{
    inputs.len() > 0 ==> run.expects(inputs[0]) && all_expected(
        run.after(inputs[0]),
        inputs.drop_first(),
    )
}

/// The state after a series of inputs.
pub open spec fn end(run: Reporter, inputs: Seq<ReporterInput>) -> Reporter
    decreases inputs.len(),
{
    if inputs.len() == 0 {
        run
    } else {
        end(run.after(inputs[0]), inputs.drop_first())
    }
}

/// The reports that a series of inputs leads to, in order.
pub open spec fn reports(run: Reporter, inputs: Seq<ReporterInput>) -> Seq<ReporterAction>
    decreases inputs.len(),
{
    if inputs.len() == 0 {
        Seq::empty()
    } else {
        let rest = reports(run.after(inputs[0]), inputs.drop_first());
        let action = run.action(inputs[0]);
        if action is Report {
            seq![action] + rest
        } else {
            rest
        }
    }
}

/// By how much the first `k` reports say that the total of sent messages has risen.
pub open spec fn sent_in(told: Seq<ReporterAction>, k: int) -> int
    decreases k,
{
    if k <= 0 {
        0
    } else {
        sent_in(told, k - 1) + told[k - 1]->more_sent
    }
}

/// By how much the first `k` reports say that the total of echoes has risen.
pub open spec fn echoed_in(told: Seq<ReporterAction>, k: int) -> int
    decreases k,
{
    if k <= 0 {
        0
    } else {
        echoed_in(told, k - 1) + told[k - 1]->more_echoed
    }
}

/// The sums over reports that begin with `first` are those over the rest, and `first`.
proof fn lemma_sums_with_first(first: ReporterAction, rest: Seq<ReporterAction>, k: int)
    requires
        0 <= k <= rest.len(),
    ensures
        sent_in(seq![first] + rest, k + 1) == first->more_sent + sent_in(rest, k),
        echoed_in(seq![first] + rest, k + 1) == first->more_echoed + echoed_in(rest, k),
    decreases k,
{
    let told = seq![first] + rest;
    if k == 0 {
        assert(sent_in(told, 0) == 0 && echoed_in(told, 0) == 0);
    } else {
        lemma_sums_with_first(first, rest, k - 1);
        assert(told[k] == rest[k - 1]);
    }
}

/// The increases that were reported add up to the totals of the last of the reports, for
/// any number of reports.
pub proof fn law_increases_add_up(run: Reporter, inputs: Seq<ReporterInput>, k: int)
    requires
        all_expected(run, inputs),
        0 < k <= reports(run, inputs).len(),
    ensures
        reports(run, inputs)[k - 1] is Report,
        reports(run, inputs)[k - 1]->Report_sent == run.meter.last_sent + sent_in(
            reports(run, inputs),
            k,
        ),
        reports(run, inputs)[k - 1]->Report_echoed == run.meter.last_echoed + echoed_in(
            reports(run, inputs),
            k,
        ),
    decreases inputs.len(),
{
    let next = run.after(inputs[0]);
    let rest = inputs.drop_first();
    let action = run.action(inputs[0]);
    let later = reports(next, rest);
    if action is Report {
        lemma_sums_with_first(action, later, k - 1);
        if k > 1 {
            law_increases_add_up(next, rest, k - 1);
            assert(reports(run, inputs)[k - 1] == later[k - 2]);
        } else {
            assert(sent_in(later, 0) == 0 && echoed_in(later, 0) == 0);
        }
    } else {
        law_increases_add_up(next, rest, k);
    }
}

/// The totals that are told, the last ones among them, never fall: no report tells less than
/// one before it, and what is told at the end is not less than any report.
pub proof fn law_totals_do_not_fall(run: Reporter, inputs: Seq<ReporterInput>)
    requires
        all_expected(run, inputs),
    ensures
        forall|k: int|
            0 <= k < reports(run, inputs).len() ==> {
                &&& run.meter.last_sent <= (#[trigger] reports(run, inputs)[k])->Report_sent
                &&& run.meter.last_echoed <= reports(run, inputs)[k]->Report_echoed
                &&& reports(run, inputs)[k]->Report_sent <= end(run, inputs).meter.last_sent
                &&& reports(run, inputs)[k]->Report_echoed <= end(run, inputs).meter.last_echoed
            },
        forall|j: int, k: int|
            0 <= j <= k < reports(run, inputs).len() ==> {
                &&& (#[trigger] reports(run, inputs)[j])->Report_sent <= (#[trigger] reports(
                    run,
                    inputs,
                )[k])->Report_sent
                &&& reports(run, inputs)[j]->Report_echoed <= reports(run, inputs)[k]->Report_echoed
            },
        run.meter.last_sent <= end(run, inputs).meter.last_sent,
        run.meter.last_echoed <= end(run, inputs).meter.last_echoed,
        forall|input: ReporterInput|
            end(run, inputs).expects(input) ==> (#[trigger] end(run, inputs).action(
                input,
            ) matches ReporterAction::Finish { sent, echoed } ==> {
                &&& end(run, inputs).meter.last_sent <= sent
                &&& end(run, inputs).meter.last_echoed <= echoed
            }),
    decreases inputs.len(),
{
    if inputs.len() > 0 {
        let next = run.after(inputs[0]);
        let rest = inputs.drop_first();
        let all = reports(run, inputs);
        let later = reports(next, rest);
        law_totals_do_not_fall(next, rest);
        if run.action(inputs[0]) is Report {
            assert forall|k: int| 0 < k < all.len() implies #[trigger] all[k] == later[k - 1] by {}
        }
    }
}

/// Whether each time that is read is at least a second behind the one before, and the first
/// at least `since`: the program pauses for a second between two readings.
pub open spec fn seconds_pass(inputs: Seq<ReporterInput>, since: int) -> bool
    decreases inputs.len(),
{
    if inputs.len() == 0 {
        true
    } else {
        match inputs[0] {
            ReporterInput::Elapsed(nanos) => since <= nanos && seconds_pass(
                inputs.drop_first(),
                nanos + REPORT_PAUSE_NANOS,
            ),
            _ => seconds_pass(inputs.drop_first(), since),
        }
    }
}

/// How many reports are left bounds the time that is left.
proof fn lemma_reports_in_time(run: Reporter, inputs: Seq<ReporterInput>, since: int)
    requires
        all_expected(run, inputs),
        seconds_pass(inputs, since),
        run.phase is Sleeping || run.phase is ReadingTotals ==> since < run.duration_nanos
            + 1_000_000_000,
    ensures
        ({
            let left = reports(run, inputs).len();
            match run.phase {
                ReporterPhase::Sleeping | ReporterPhase::ReadingTotals => 1_000_000_000 * left
                    < run.duration_nanos - since + 2_000_000_000,
                ReporterPhase::Idle
                | ReporterPhase::AskingElapsed
                | ReporterPhase::Reporting => left == 0 || 1_000_000_000 * left
                    < run.duration_nanos - since + 1_000_000_000,
                _ => left == 0,
            }
        }),
    decreases inputs.len(),
{
    if inputs.len() > 0 {
        let next = run.after(inputs[0]);
        let rest = inputs.drop_first();
        let then: int = match inputs[0] {
            ReporterInput::Elapsed(nanos) => nanos + 1_000_000_000,
            _ => since,
        };
        lemma_reports_in_time(next, rest, then);
    }
}

/// There are at most as many reports as the benchmark has seconds.
pub proof fn law_one_report_a_second(run: Reporter, inputs: Seq<ReporterInput>, secs: nat)
    requires
        run.phase is Idle,
        run.duration_nanos == secs * 1_000_000_000,
        all_expected(run, inputs),
        seconds_pass(inputs, 0),
    ensures
        reports(run, inputs).len() <= secs,
{
    lemma_reports_in_time(run, inputs, 0);
}

/// While the time is not up, a round is a pause of a second, a reading of the totals, a report
/// of exactly those totals and of their increase, and the next question; the run is then where
/// it began, but for the totals that were told.
pub proof fn law_round(run: Reporter, nanos: u128, sent: u64, echoed: u64)
    requires
        run.phase is AskingElapsed,
        nanos < run.duration_nanos,
        run.meter.last_sent <= sent,
        run.meter.last_echoed <= echoed,
    ensures
        ({
            let asked = ReporterInput::Elapsed(nanos);
            let read = ReporterInput::Totals { sent, echoed };
            let done = ReporterInput::Done;
            let paused = run.after(asked);
            let reading = paused.after(done);
            let told = reading.after(read);
            &&& run.expects(asked) && run.action(asked) == ReporterAction::Sleep(1_000_000_000)
            &&& paused.expects(done) && paused.action(done) is ReadTotals
            &&& reading.expects(read) && reading.action(read) == (ReporterAction::Report {
                sent,
                echoed,
                more_sent: (sent - run.meter.last_sent) as u64,
                more_echoed: (echoed - run.meter.last_echoed) as u64,
            })
            &&& told.phase is Reporting && told.expects(done) && told.action(done) is AskElapsed
            &&& told.after(done) == (Reporter {
                meter: RateMeter { last_sent: sent, last_echoed: echoed },
                ..run
            })
        }),
{
}

/// Once the time is up, the clients are stopped, the totals are read once more, and what is
/// told at the end are the totals that were read then. Nothing follows.
pub proof fn law_what_is_told_at_the_end(run: Reporter, nanos: u128, sent: u64, echoed: u64)
    requires
        run.phase is AskingElapsed,
        nanos >= run.duration_nanos,
        run.meter.last_sent <= sent,
        run.meter.last_echoed <= echoed,
    ensures
        ({
            let asked = ReporterInput::Elapsed(nanos);
            let read = ReporterInput::Totals { sent, echoed };
            let done = ReporterInput::Done;
            let stopping = run.after(asked);
            let reading = stopping.after(done);
            &&& run.expects(asked) && run.action(asked) is Stop
            &&& stopping.expects(done) && stopping.action(done) is ReadTotals
            &&& reading.expects(read) && reading.action(read) == (ReporterAction::Finish {
                sent,
                echoed,
            })
            &&& forall|more: ReporterInput| !reading.after(read).expects(more)
        }),
{
}

/// Every figure that is told is one that was read just before: no report and no result tells
/// anything but the totals of its reading.
pub proof fn law_figures_are_those_read(run: Reporter, input: ReporterInput)
    requires
        run.expects(input),
    ensures
        run.action(input) matches ReporterAction::Report { sent, echoed, .. } ==> input
            == (ReporterInput::Totals { sent, echoed }),
        run.action(input) matches ReporterAction::Finish { sent, echoed } ==> input
            == (ReporterInput::Totals { sent, echoed }),
        run.phase is ReadingFinal ==> (input matches ReporterInput::Totals { sent, echoed }
            && run.action(input) == (ReporterAction::Finish { sent, echoed })),
        run.phase is ReadingTotals ==> run.action(input) is Report,
        run.phase is Idle ==> run.action(input) is AskElapsed && run.after(input).meter == run.meter,
        run.after(input).duration_nanos == run.duration_nanos,
{
}

} // verus!
