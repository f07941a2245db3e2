use cyberbeast::cli::Mode;
use cyberbeast::loops::{loop_step, LoopState, LoopStep};
use cyberbeast::MsgType;

#[test]
fn single_runs_send_their_messages_in_order() {
    let mut state = LoopState::start(Mode::WriteParam, 0, 0, 7);
    // A stop request does not keep a write from being read back.
    assert_eq!(
        loop_step(&mut state, true, false, 7),
        LoopStep::Send(MsgType::ParamRead)
    );
    assert_eq!(
        loop_step(&mut state, true, false, 8),
        LoopStep::Send(MsgType::ParamWrite)
    );
    assert_eq!(
        loop_step(&mut state, true, false, 9),
        LoopStep::Send(MsgType::ParamRead)
    );
    assert_eq!(loop_step(&mut state, true, false, 10), LoopStep::Done);
    assert_eq!(loop_step(&mut state, false, true, 11), LoopStep::Done);

    let mut state = LoopState::start(Mode::EndpointMap, 0, 0, 0);
    assert_eq!(loop_step(&mut state, false, false, 0), LoopStep::Done);
}

#[test]
fn control_loops_start_repeat_and_stop() {
    for (mode, message) in [
        (Mode::Mit, MsgType::MitControl),
        (Mode::Pos, MsgType::PosControl),
        (Mode::Vel, MsgType::VelControl),
        (Mode::Torque, MsgType::TorqueControl),
    ] {
        let mut state = LoopState::start(mode, 5, 0, 100);
        assert_eq!(
            loop_step(&mut state, false, false, 100),
            LoopStep::Send(MsgType::StartMotor)
        );
        assert_eq!(
            loop_step(&mut state, false, false, 100),
            LoopStep::Send(message)
        );
        // No line before the node has been heard of.
        assert_eq!(loop_step(&mut state, false, false, 101), LoopStep::Wait(4));
        assert_eq!(
            loop_step(&mut state, false, false, 105),
            LoopStep::Send(message)
        );
        assert_eq!(loop_step(&mut state, false, true, 105), LoopStep::Report);
        // A stop takes effect when the next message would be due.
        assert_eq!(loop_step(&mut state, true, true, 106), LoopStep::Wait(4));
        assert_eq!(
            loop_step(&mut state, true, true, 110),
            LoopStep::Send(MsgType::StopMotor)
        );
        assert_eq!(loop_step(&mut state, true, true, 110), LoopStep::Done);
        assert_eq!(loop_step(&mut state, false, true, 999), LoopStep::Done);
    }
}

#[test]
fn control_loops_that_are_stopped_at_once_send_no_control_message() {
    let mut state = LoopState::start(Mode::Mit, 5, 0, 0);
    assert_eq!(
        loop_step(&mut state, true, false, 0),
        LoopStep::Send(MsgType::StartMotor)
    );
    assert_eq!(
        loop_step(&mut state, true, false, 0),
        LoopStep::Send(MsgType::StopMotor)
    );
    assert_eq!(loop_step(&mut state, true, false, 0), LoopStep::Done);
}

#[test]
fn keep_alives_query_once_every_period() {
    let mut state = LoopState::start(Mode::KeepAlive, 500, 1, 0);
    let status = LoopStep::Send(MsgType::QueryStatus);
    let pos_vel = LoopStep::Send(MsgType::QueryPosVel);
    assert_eq!(loop_step(&mut state, false, false, 0), status);
    assert_eq!(loop_step(&mut state, false, false, 1), pos_vel);
    assert_eq!(loop_step(&mut state, false, false, 2), LoopStep::Wait(2));
    assert_eq!(loop_step(&mut state, false, false, 500), LoopStep::Wait(1));
    assert_eq!(loop_step(&mut state, false, false, 501), status);
    assert_eq!(loop_step(&mut state, false, false, 501), pos_vel);
    assert_eq!(loop_step(&mut state, false, false, 1000), LoopStep::Wait(1));
    // The line comes once a second, also while nothing has been heard.
    assert_eq!(loop_step(&mut state, false, false, 1001), LoopStep::Report);
    assert_eq!(loop_step(&mut state, false, false, 1001), LoopStep::Done);
}

#[test]
fn keep_alives_without_a_duration_run_until_they_are_stopped() {
    let mut state = LoopState::start(Mode::KeepAlive, 10, 0, 0);
    let mut sent = 0u32;
    let mut now = 0u64;
    while now < 5000 {
        match loop_step(&mut state, false, true, now) {
            LoopStep::Send(_) => sent += 1,
            LoopStep::Wait(pause_ms) => now += pause_ms,
            LoopStep::Report => {}
            LoopStep::Done => panic!("over at {now}"),
        }
    }
    assert_eq!(sent, 1000);
    assert_eq!(loop_step(&mut state, true, true, now + 10), LoopStep::Report);
    assert_eq!(loop_step(&mut state, true, true, now + 10), LoopStep::Done);
}

#[test]
fn monitors_only_listen() {
    let mut state = LoopState::start(Mode::Monitor, 77, 2, 1000);
    let mut lines = Vec::new();
    let mut now = 1000u64;
    loop {
        match loop_step(&mut state, false, now >= 1600, now) {
            LoopStep::Send(message) => panic!("{message:?}"),
            LoopStep::Wait(pause_ms) => {
                assert_eq!(pause_ms, 2);
                now += pause_ms;
            }
            LoopStep::Report => lines.push(now),
            LoopStep::Done => break,
        }
    }
    assert_eq!(now, 3000);
    assert_eq!(lines, vec![1600, 2100, 2600]);
}

#[test]
fn the_end_of_the_clock_is_no_overflow() {
    let mut state = LoopState::start(Mode::KeepAlive, u64::MAX, u64::MAX, u64::MAX);
    assert_eq!(
        loop_step(&mut state, false, false, u64::MAX),
        LoopStep::Send(MsgType::QueryStatus)
    );
}
