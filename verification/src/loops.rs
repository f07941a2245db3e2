//! How a mode runs: which message goes out when, when a line is due and when the mode ends.
//!
//! A mode that runs once sends its messages in order. A control loop starts the axis, sends
//! its control message once every period and stops the axis at its end. A keep-alive sends
//! its queries once every period, and a monitor only listens. The caller performs each step
//! and comes back with the time, with whether a stop was requested, and with whether the node
//! has been heard of.

use vstd::prelude::*;

use crate::cli;
use crate::cli::{mode_commands, Mode};
use crate::descriptor;
use crate::descriptor::end_of_window;
use crate::protocol::MsgType;

verus! {

/// How often frames are collected while nothing else is due, in milliseconds.
pub const POLL_MS: u64 = 2;

/// Time between two lines of a monitor, in milliseconds.
pub const MONITOR_REPORT_MS: u64 = 500;

/// Time between two lines of a keep-alive, in milliseconds.
pub const KEEP_ALIVE_REPORT_MS: u64 = 1000;

/// Where a running mode stands.
#[derive(Debug, Clone, Copy, PartialEq, Eq, Structural)]
pub enum LoopPhase {
    /// The axis is to be started.
    Opening,
    /// A round is due, unless the mode is over.
    Boundary,
    /// Messages of a round are to be sent.
    Round,
    /// The line of a round is due.
    Reporting,
    /// The next round is not due yet.
    Resting,
    /// Nothing is left to be sent.
    Over,
}

/// A mode that runs.
#[derive(Debug, Clone, Copy, PartialEq, Eq, Structural)]
pub struct LoopState {
    pub mode: Mode,
    /// Time from the last message of a round to the next round, in milliseconds.
    pub period_ms: u64,
    /// How long the mode runs, in seconds; 0 stands for no end.
    pub duration_s: u64,
    /// When the mode started.
    pub started_ms: u64,
    /// When the next round is due.
    pub next_ms: u64,
    /// Messages of this round that have been sent.
    pub sent: usize,
    pub phase: LoopPhase,
    /// When the last line was due.
    pub reported_ms: u64,
}

/// What a running mode does next.
#[derive(Debug, Clone, Copy, PartialEq, Eq, Structural)]
pub enum LoopStep {
    /// Send this message.
    Send(MsgType),
    /// Collect frames, and come back after this time (in milliseconds).
    Wait(u64),
    /// Print a line on the state of the node.
    Report,
    /// The mode is over.
    Done,
}

/// Whether a mode moves the axis until it is stopped.
pub open spec fn is_control(mode: Mode) -> bool {
    mode is Mit || mode is Pos || mode is Vel || mode is Torque
}

/// Whether a mode runs until it is stopped or its time is over, without moving the axis.
pub open spec fn is_watch(mode: Mode) -> bool {
    mode is Monitor || mode is KeepAlive
}

/// The messages of one round.
pub open spec fn round_of(mode: Mode) -> Seq<MsgType> {
    if is_control(mode) {
        seq![cli::messages_of(mode)[1]]
    } else {
        cli::messages_of(mode)
    }
}

/// A mode that starts now.
pub open spec fn started(mode: Mode, period_ms: u64, duration_s: u64, now_ms: u64) -> LoopState {
    LoopState {
        mode,
        period_ms: if mode is Monitor {
            POLL_MS
        } else {
            period_ms
        },
        duration_s,
        started_ms: now_ms,
        next_ms: now_ms,
        sent: 0,
        phase: if is_control(mode) {
            LoopPhase::Opening
        } else if is_watch(mode) {
            LoopPhase::Boundary
        } else {
            LoopPhase::Round
        },
        reported_ms: now_ms,
    }
}

/// Whether a mode is to end: a stop is requested, or a positive duration is over.
pub open spec fn is_over(state: LoopState, stop_requested: bool, now_ms: u64) -> bool {
    stop_requested || (state.duration_s > 0 && now_ms >= state.started_ms + state.duration_s * 1000)
}

/// Whether the time between two lines has passed.
pub open spec fn line_due(state: LoopState, now_ms: u64) -> bool {
    now_ms - state.reported_ms >= (if state.mode is Monitor {
        MONITOR_REPORT_MS
    } else {
        KEEP_ALIVE_REPORT_MS
    })
}

/// How long to wait: a control loop until its next round, any other mode for one poll at most.
pub open spec fn pause(state: LoopState, now_ms: u64) -> u64 {
    let left = if now_ms < state.next_ms {
        state.next_ms - now_ms
    } else {
        0
    };
    if left > POLL_MS && !is_control(state.mode) {
        POLL_MS
    } else {
        left as u64
    }
}

/// What happens within a round: its messages one after the other; a monitor, which has none,
/// prints a line now and then.
pub open spec fn in_round(state: LoopState, heard: bool, now_ms: u64) -> (LoopState, LoopStep) {
    let round = round_of(state.mode);
    if state.sent < round.len() {
        let last = state.sent + 1 == round.len();
        (
            LoopState {
                sent: (state.sent + 1) as usize,
                phase: if last && is_control(state.mode) {
                    LoopPhase::Reporting
                } else if last && is_watch(state.mode) {
                    LoopPhase::Resting
                } else {
                    LoopPhase::Round
                },
                next_ms: if last {
                    descriptor::window_end(now_ms, state.period_ms)
                } else {
                    state.next_ms
                },
                ..state
            },
            LoopStep::Send(round[state.sent as int]),
        )
    } else if is_watch(state.mode) {
        let resting = LoopState {
            phase: LoopPhase::Resting,
            next_ms: descriptor::window_end(now_ms, state.period_ms),
            ..state
        };
        if heard && line_due(state, now_ms) {
            (LoopState { reported_ms: now_ms, ..resting }, LoopStep::Report)
        } else {
            (resting, LoopStep::Wait(pause(resting, now_ms)))
        }
    } else {
        (LoopState { phase: LoopPhase::Over, ..state }, LoopStep::Done)
    }
}

/// What happens when a round is due: the mode ends, a control loop by stopping the axis, or
/// the round begins.
pub open spec fn at_boundary(
    state: LoopState,
    stop_requested: bool,
    heard: bool,
    now_ms: u64,
) -> (LoopState, LoopStep) {
    if !is_over(state, stop_requested, now_ms) {
        in_round(LoopState { sent: 0, phase: LoopPhase::Round, ..state }, heard, now_ms)
    } else if is_control(state.mode) {
        (
            LoopState { phase: LoopPhase::Over, ..state },
            LoopStep::Send(cli::messages_of(state.mode).last()),
        )
    } else {
        (LoopState { phase: LoopPhase::Over, ..state }, LoopStep::Done)
    }
}

/// What happens between two rounds; a keep-alive prints its line at the end of a round.
pub open spec fn at_rest(
    state: LoopState,
    stop_requested: bool,
    heard: bool,
    now_ms: u64,
) -> (LoopState, LoopStep) {
    if now_ms < state.next_ms {
        (state, LoopStep::Wait(pause(state, now_ms)))
    } else if state.mode is KeepAlive && line_due(state, now_ms) {
        (
            LoopState { phase: LoopPhase::Boundary, reported_ms: now_ms, ..state },
            LoopStep::Report,
        )
    } else {
        at_boundary(state, stop_requested, heard, now_ms)
    }
}

/// What a running mode does next.
pub open spec fn next_loop_step(
    state: LoopState,
    stop_requested: bool,
    heard: bool,
    now_ms: u64,
) -> (LoopState, LoopStep) {
    match state.phase {
        LoopPhase::Opening => if is_control(state.mode) {
            (
                LoopState { phase: LoopPhase::Boundary, ..state },
                LoopStep::Send(cli::messages_of(state.mode).first()),
            )
        } else {
            at_boundary(state, stop_requested, heard, now_ms)
        },
        LoopPhase::Boundary => at_boundary(state, stop_requested, heard, now_ms),
        LoopPhase::Round => in_round(state, heard, now_ms),
        LoopPhase::Reporting => {
            let resting = LoopState { phase: LoopPhase::Resting, ..state };
            if heard {
                (resting, LoopStep::Report)
            } else {
                at_rest(resting, stop_requested, heard, now_ms)
            }
        },
        LoopPhase::Resting => at_rest(state, stop_requested, heard, now_ms),
        LoopPhase::Over => (state, LoopStep::Done),
    }
}

fn control(mode: Mode) -> (res: bool)
    ensures
        res == is_control(mode),
{
    match mode {
        Mode::Mit | Mode::Pos | Mode::Vel | Mode::Torque => true,
        _ => false,
    }
}

fn watch(mode: Mode) -> (res: bool)
    ensures
        res == is_watch(mode),
{
    match mode {
        Mode::Monitor | Mode::KeepAlive => true,
        _ => false,
    }
}

impl LoopState {
    /// A mode that starts now. A monitor has a period of its own.
    pub fn start(mode: Mode, period_ms: u64, duration_s: u64, now_ms: u64) -> (res: Self)
        ensures
            res == started(mode, period_ms, duration_s, now_ms),
    {
        LoopState {
            mode,
            period_ms: match mode {
                Mode::Monitor => POLL_MS,
                _ => period_ms,
            },
            duration_s,
            started_ms: now_ms,
            next_ms: now_ms,
            sent: 0,
            phase: if control(mode) {
                LoopPhase::Opening
            } else if watch(mode) {
                LoopPhase::Boundary
            } else {
                LoopPhase::Round
            },
            reported_ms: now_ms,
        }
    }

    fn over(&self, stop_requested: bool, now_ms: u64) -> (res: bool)
        ensures
            res == is_over(*self, stop_requested, now_ms),
    {
        stop_requested || (self.duration_s > 0 && now_ms as u128 >= self.started_ms as u128
            + self.duration_s as u128 * 1000)
    }

    fn due(&self, now_ms: u64) -> (res: bool)
        ensures
            res == line_due(*self, now_ms),
    {
        let interval: u64 = match self.mode {
            Mode::Monitor => MONITOR_REPORT_MS,
            _ => KEEP_ALIVE_REPORT_MS,
        };
        now_ms >= self.reported_ms && now_ms - self.reported_ms >= interval
    }

    fn wait(&self, now_ms: u64) -> (res: LoopStep)
        ensures
            res == LoopStep::Wait(pause(*self, now_ms)),
    {
        let left: u64 = if now_ms < self.next_ms {
            self.next_ms - now_ms
        } else {
            0
        };
        if left > POLL_MS && !control(self.mode) {
            LoopStep::Wait(POLL_MS)
        } else {
            LoopStep::Wait(left)
        }
    }

    fn round(&mut self, heard: bool, now_ms: u64) -> (res: LoopStep)
        ensures
            (*final(self), res) == in_round(*old(self), heard, now_ms),
    {
        let messages: Vec<MsgType> = mode_commands(self.mode);
        let first: usize = if control(self.mode) {
            1
        } else {
            0
        };
        let count: usize = if control(self.mode) {
            1
        } else {
            messages.len()
        };
        if self.sent < count {
            let message: MsgType = messages[first + self.sent];
            self.sent = self.sent + 1;
            self.phase = LoopPhase::Round;
            if self.sent == count {
                self.next_ms = end_of_window(now_ms, self.period_ms);
                if control(self.mode) {
                    self.phase = LoopPhase::Reporting;
                } else if watch(self.mode) {
                    self.phase = LoopPhase::Resting;
                }
            }
            return LoopStep::Send(message);
        }
        if !watch(self.mode) {
            self.phase = LoopPhase::Over;
            return LoopStep::Done;
        }
        let due: bool = self.due(now_ms);
        self.phase = LoopPhase::Resting;
        self.next_ms = end_of_window(now_ms, self.period_ms);
        if heard && due {
            self.reported_ms = now_ms;
            return LoopStep::Report;
        }
        self.wait(now_ms)
    }

    fn boundary(&mut self, stop_requested: bool, heard: bool, now_ms: u64) -> (res: LoopStep)
        ensures
            (*final(self), res) == at_boundary(*old(self), stop_requested, heard, now_ms),
    {
        if !self.over(stop_requested, now_ms) {
            self.sent = 0;
            self.phase = LoopPhase::Round;
            return self.round(heard, now_ms);
        }
        self.phase = LoopPhase::Over;
        if control(self.mode) {
            let messages: Vec<MsgType> = mode_commands(self.mode);
            LoopStep::Send(messages[messages.len() - 1])
        } else {
            LoopStep::Done
        }
    }

    fn rest(&mut self, stop_requested: bool, heard: bool, now_ms: u64) -> (res: LoopStep)
        ensures
            (*final(self), res) == at_rest(*old(self), stop_requested, heard, now_ms),
    {
        if now_ms < self.next_ms {
            return self.wait(now_ms);
        }
        let keeps_alive: bool = match self.mode {
            Mode::KeepAlive => true,
            _ => false,
        };
        if keeps_alive && self.due(now_ms) {
            self.phase = LoopPhase::Boundary;
            self.reported_ms = now_ms;
            return LoopStep::Report;
        }
        self.boundary(stop_requested, heard, now_ms)
    }
}

/// Decide what a running mode does next. `heard` says whether the node has been heard of.
pub fn loop_step(state: &mut LoopState, stop_requested: bool, heard: bool, now_ms: u64) -> (res:
    LoopStep)
    ensures
        (*final(state), res) == next_loop_step(*old(state), stop_requested, heard, now_ms),
{
    match state.phase {
        LoopPhase::Opening => {
            if control(state.mode) {
                state.phase = LoopPhase::Boundary;
                let messages: Vec<MsgType> = mode_commands(state.mode);
                return LoopStep::Send(messages[0]);
            }
            state.boundary(stop_requested, heard, now_ms)
        },
        LoopPhase::Boundary => state.boundary(stop_requested, heard, now_ms),
        LoopPhase::Round => state.round(heard, now_ms),
        LoopPhase::Reporting => {
            state.phase = LoopPhase::Resting;
            if heard {
                return LoopStep::Report;
            }
            state.rest(stop_requested, heard, now_ms)
        },
        LoopPhase::Resting => state.rest(stop_requested, heard, now_ms),
        LoopPhase::Over => LoopStep::Done,
    }
}

/// A running mode sends only the messages that are listed for it, and stays that mode.
pub proof fn law_loops_send_only_their_messages(
    state: LoopState,
    stop_requested: bool,
    heard: bool,
    now_ms: u64,
)
    ensures
        ({
            let (next, step) = next_loop_step(state, stop_requested, heard, now_ms);
            &&& next.mode == state.mode
            &&& step matches LoopStep::Send(message) ==> cli::messages_of(state.mode).contains(
                message,
            )
        }),
{
    let messages = cli::messages_of(state.mode);
    let (next, step) = next_loop_step(state, stop_requested, heard, now_ms);
    if let LoopStep::Send(message) = step {
        if is_control(state.mode) {
            assert(message == messages[0] || message == messages[1] || message == messages[2]);
        } else {
            assert(message == messages[0] || message == messages[state.sent as int]);
        }
    }
}

/// A mode that runs once sends its messages in the order in which they are listed, and is over
/// when the last one is sent: a write is read before and after.
pub proof fn law_single_runs_send_their_messages_in_order(
    state: LoopState,
    stop_requested: bool,
    heard: bool,
    now_ms: u64,
)
    requires
        !is_control(state.mode) && !is_watch(state.mode),
        state.phase is Round,
    ensures
        started(state.mode, state.period_ms, state.duration_s, now_ms).phase is Round,
        started(state.mode, state.period_ms, state.duration_s, now_ms).sent == 0,
        ({
            let messages = cli::messages_of(state.mode);
            let (next, step) = next_loop_step(state, stop_requested, heard, now_ms);
            if state.sent < messages.len() {
                step == LoopStep::Send(messages[state.sent as int]) && next.sent == state.sent + 1
                    && next.phase is Round
            } else {
                step is Done
            }
        }),
{
}

/// Whether a round would be due now: nothing is left to wait for, and no line comes first.
pub open spec fn round_due(state: LoopState, now_ms: u64) -> bool {
    state.phase is Boundary || (state.phase is Resting && now_ms >= state.next_ms && !(
    state.mode is KeepAlive && line_due(state, now_ms)))
}

/// A mode that repeats ends exactly when a round would be due although a stop is requested or
/// its time is over: a control loop then stops the axis, and nothing is sent after that; a
/// keep-alive and a monitor just end.
pub proof fn law_loops_end_when_they_are_over(
    state: LoopState,
    stop_requested: bool,
    heard: bool,
    now_ms: u64,
    later_stop: bool,
    later_heard: bool,
    later_ms: u64,
)
    requires
        is_control(state.mode) || is_watch(state.mode),
        round_due(state, now_ms),
    ensures
        ({
            let (next, step) = next_loop_step(state, stop_requested, heard, now_ms);
            let over = is_over(state, stop_requested, now_ms);
            &&& is_watch(state.mode) ==> (step is Done <==> over)
            &&& is_control(state.mode) ==> step !is Done && (step == LoopStep::Send(
                MsgType::StopMotor,
            ) <==> over)
            &&& over ==> next_loop_step(next, later_stop, later_heard, later_ms) == (
                next,
                LoopStep::Done,
            )
        }),
{
}

/// A control loop starts the axis before anything else.
pub proof fn law_control_loops_begin_with_a_start(
    mode: Mode,
    period_ms: u64,
    duration_s: u64,
    now_ms: u64,
    stop_requested: bool,
    heard: bool,
)
    requires
        is_control(mode),
    ensures
        ({
            let (next, step) = next_loop_step(
                started(mode, period_ms, duration_s, now_ms),
                stop_requested,
                heard,
                now_ms,
            );
            step == LoopStep::Send(MsgType::StartMotor) && next.phase is Boundary
        }),
{
}

/// A control loop and a keep-alive send the messages of a round in order, and once the last
/// one is sent the next round is due one period later.
pub proof fn law_rounds_end_in_rest(state: LoopState, stop_requested: bool, heard: bool, now_ms: u64)
    requires
        is_control(state.mode) || state.mode is KeepAlive,
        !is_over(state, stop_requested, now_ms),
        round_due(state, now_ms) || (state.phase is Round && state.sent < round_of(
            state.mode,
        ).len()),
    ensures
        ({
            let round = round_of(state.mode);
            let at: int = if state.phase is Round {
                state.sent as int
            } else {
                0
            };
            let (next, step) = next_loop_step(state, stop_requested, heard, now_ms);
            &&& step == LoopStep::Send(round[at])
            &&& next.sent == at + 1
            &&& if at + 1 < round.len() {
                next.phase is Round
            } else {
                (next.phase is Reporting || next.phase is Resting) && next.next_ms
                    == descriptor::window_end(now_ms, state.period_ms)
            }
        }),
{
}

/// Between two rounds, and until the next one is due, a mode that repeats neither sends nor
/// ends, and the next round stays due at the same time.
pub proof fn law_nothing_is_sent_between_rounds(
    state: LoopState,
    stop_requested: bool,
    heard: bool,
    now_ms: u64,
)
    requires
        state.phase is Reporting || state.phase is Resting,
        now_ms < state.next_ms,
    ensures
        ({
            let (next, step) = next_loop_step(state, stop_requested, heard, now_ms);
            &&& step is Wait || step is Report
            &&& next.phase is Resting
            &&& next.next_ms == state.next_ms
            &&& step matches LoopStep::Wait(pause_ms) ==> pause_ms <= state.next_ms - now_ms
        }),
{
}

/// A mode is over when a stop is requested or its duration, counted in seconds from its start, has
/// passed; without a duration only a stop ends it.
pub proof fn law_durations_count_from_the_start(
    mode: Mode,
    period_ms: u64,
    duration_s: u64,
    start_ms: u64,
    now_ms: u64,
)
    ensures
        ({
            let state = started(mode, period_ms, duration_s, start_ms);
            &&& is_over(state, true, now_ms)
            &&& duration_s == 0 ==> !is_over(state, false, now_ms)
            &&& duration_s > 0 ==> (is_over(state, false, now_ms) <==> now_ms - start_ms >= 1000
                * duration_s)
        }),
{
}

/// The four control modes and the two watching ones repeat; every other mode runs once. A control
/// loop repeats the one message between its start and its stop, a watching mode all of its
/// messages.
pub proof fn law_rounds_go_by_their_mode(mode: Mode)
    ensures
        is_control(mode) <==> mode == Mode::Mit || mode == Mode::Pos || mode == Mode::Vel || mode
            == Mode::Torque,
        is_watch(mode) <==> mode == Mode::Monitor || mode == Mode::KeepAlive,
        mode == Mode::Mit ==> round_of(mode) == seq![MsgType::MitControl],
        mode == Mode::Pos ==> round_of(mode) == seq![MsgType::PosControl],
        mode == Mode::Vel ==> round_of(mode) == seq![MsgType::VelControl],
        mode == Mode::Torque ==> round_of(mode) == seq![MsgType::TorqueControl],
        mode == Mode::KeepAlive ==> round_of(mode) == seq![
            MsgType::QueryStatus,
            MsgType::QueryPosVel,
        ],
        mode == Mode::Monitor ==> round_of(mode).len() == 0,
        !is_control(mode) ==> round_of(mode) == cli::messages_of(mode),
{
}

/// A monitor prints a line at most every 500 ms and only of a node that has been heard of, and a
/// keep-alive one a second at the end of a round; a control loop prints one after each of its
/// messages, once the node has been heard of.
pub proof fn law_lines_are_printed_in_time(
    state: LoopState,
    stop_requested: bool,
    heard: bool,
    now_ms: u64,
)
    requires
        !is_over(state, stop_requested, now_ms),
        state.reported_ms <= now_ms,
    ensures
        ({
            let (next, step) = next_loop_step(state, stop_requested, heard, now_ms);
            let since = now_ms - state.reported_ms;
            &&& state.mode == Mode::Monitor && state.phase is Boundary ==> (step is Report <==> heard
                && since >= 500)
            &&& state.mode == Mode::KeepAlive && state.phase is Resting ==> (step is Report <==> now_ms
                >= state.next_ms && since >= 1000)
            &&& is_watch(state.mode) && (state.phase is Boundary || state.phase is Resting)
                ==> next.reported_ms == if step is Report {
                now_ms
            } else {
                state.reported_ms
            }
            &&& is_control(state.mode) ==> (step is Report <==> state.phase is Reporting && heard)
        }),
{
}

/// Frames are collected at least every 2 ms while a watching mode waits; a control loop waits for
/// exactly the rest of its period.
pub proof fn law_waits_are_short(
    state: LoopState,
    stop_requested: bool,
    heard: bool,
    now_ms: u64,
)
    requires
        state.phase is Resting,
        now_ms < state.next_ms,
    ensures
        next_loop_step(state, stop_requested, heard, now_ms).1 == LoopStep::Wait(
            if is_control(state.mode) || state.next_ms - now_ms < 2 {
                (state.next_ms - now_ms) as u64
            } else {
                2
            },
        ),
{
}

/// A control loop starts by starting the axis, a watching mode with a round, and every other mode
/// with its first message; a monitor looks every 2 ms whatever period it is given.
pub proof fn law_modes_start_with_their_first_message(
    mode: Mode,
    period_ms: u64,
    duration_s: u64,
    now_ms: u64,
    heard: bool,
)
    ensures
        ({
            let state = started(mode, period_ms, duration_s, now_ms);
            let (next, step) = next_loop_step(state, false, heard, now_ms);
            &&& state.mode == mode
            &&& mode == Mode::Monitor ==> state.period_ms == 2
            &&& mode != Mode::Monitor ==> state.period_ms == period_ms
            &&& mode != Mode::Monitor && cli::messages_of(mode).len() > 0 ==> step
                == LoopStep::Send(cli::messages_of(mode)[0])
            &&& mode == Mode::FindEndpoint || mode == Mode::EndpointMap ==> step is Done
        }),
{
}

} // verus!
