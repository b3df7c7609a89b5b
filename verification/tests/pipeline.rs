use passthrough::channel::{new_channel, SILENCE};
use passthrough::command::{toggle_command, AudioCommand};
use passthrough::frames::{capture_frame, render_frame};
use passthrough::worker::{worker_step, StreamAction, WorkerState};

fn bits(amplitude: f32) -> u32 {
    amplitude.to_bits()
}

fn amplitude(sample: u32) -> f32 {
    f32::from_bits(sample)
}

#[test]
fn prefill_pops_exact_silence() {
    // Capacity 6, pre-fill 3: the reader gets exactly three samples of
    // amplitude 0.0 before any producer activity, then silence substitutes.
    let (_p, mut c) = new_channel(6, 3);
    let first = render_frame(&mut c, 3);
    assert_eq!(first.len(), 3);
    for s in &first {
        assert_eq!(amplitude(*s), 0.0);
    }
    let after = render_frame(&mut c, 2);
    assert_eq!(after, vec![SILENCE, SILENCE]);
}

#[test]
fn end_to_end_capacity_four() {
    // Capacity 4, pre-fill 2 zeros.  Pushing 1.0..5.0 with no interleaved
    // pops accepts 1.0 and 2.0 (buffer full at 4) and drops the rest; pops
    // then yield 0.0, 0.0, 1.0, 2.0 and silence afterwards.
    let (mut p, mut c) = new_channel(4, 2);
    let frame = vec![bits(1.0), bits(2.0), bits(3.0), bits(4.0), bits(5.0)];
    let accepted = capture_frame(&mut p, &frame);
    assert_eq!(accepted, 2);
    let out = render_frame(&mut c, 4);
    let amps: Vec<f32> = out.iter().map(|s| amplitude(*s)).collect();
    assert_eq!(amps, vec![0.0, 0.0, 1.0, 2.0]);
    let empty = render_frame(&mut c, 2);
    assert_eq!(empty, vec![SILENCE, SILENCE]);
}

#[test]
fn samples_pop_in_push_order() {
    let (mut p, mut c) = new_channel(8, 0);
    let frame = vec![bits(0.25), bits(-0.5), bits(0.75)];
    let accepted = capture_frame(&mut p, &frame);
    assert_eq!(accepted, 3);
    let out = render_frame(&mut c, 3);
    assert_eq!(out, frame);
}

#[test]
fn full_channel_drops_never_blocks() {
    // Only the first two of five samples fit in a two-slot channel; the
    // rest are dropped, and what comes out is the accepted prefix in order.
    let (mut p, mut c) = new_channel(2, 0);
    let frame = vec![bits(0.1), bits(0.2), bits(0.3), bits(0.4), bits(0.5)];
    let accepted = capture_frame(&mut p, &frame);
    assert_eq!(accepted, 2);
    let out = render_frame(&mut c, 2);
    assert_eq!(out, vec![bits(0.1), bits(0.2)]);
    let empty = render_frame(&mut c, 1);
    assert_eq!(empty, vec![SILENCE]);
}

#[test]
fn empty_channel_yields_silence() {
    let (_p, mut c) = new_channel(3, 0);
    let out = render_frame(&mut c, 2);
    assert_eq!(out, vec![SILENCE, SILENCE]);
}

#[test]
fn refilled_channel_serves_again() {
    // Drain the channel dry, then push again: the reader picks the new
    // samples up in order after the dry spell.
    let (mut p, mut c) = new_channel(4, 1);
    let drained = render_frame(&mut c, 2);
    assert_eq!(drained, vec![SILENCE, SILENCE]);
    let accepted = capture_frame(&mut p, &vec![bits(0.5)]);
    assert_eq!(accepted, 1);
    let out = render_frame(&mut c, 1);
    assert_eq!(out, vec![bits(0.5)]);
}

#[test]
fn command_scenario_transitions() {
    // Play, Pause, Play, Exit from a fresh worker: Idle -> Running ->
    // Paused -> Running -> Closed, one device start per entry into Running,
    // one pause per entry into Paused plus the Exit teardown.
    let commands = [
        AudioCommand::Play,
        AudioCommand::Pause,
        AudioCommand::Play,
        AudioCommand::Exit,
    ];
    let mut state = WorkerState::Idle;
    let mut states = Vec::new();
    let mut starts = 0;
    let mut pauses = 0;
    for cmd in commands {
        let (next, action) = worker_step(state, Some(cmd));
        match action {
            StreamAction::StartStreams => starts += 1,
            StreamAction::PauseStreams => pauses += 1,
            StreamAction::HoldStreams => {}
        }
        states.push(next);
        state = next;
    }
    assert_eq!(
        states,
        vec![
            WorkerState::Running,
            WorkerState::Paused,
            WorkerState::Running,
            WorkerState::Closed,
        ]
    );
    assert_eq!(starts, 2);
    assert_eq!(pauses, 2);
}

#[test]
fn pause_and_play_idempotent() {
    let (state, action) = worker_step(WorkerState::Paused, Some(AudioCommand::Pause));
    assert_eq!(state, WorkerState::Paused);
    assert_eq!(action, StreamAction::HoldStreams);
    let (state, action) = worker_step(WorkerState::Running, Some(AudioCommand::Play));
    assert_eq!(state, WorkerState::Running);
    assert_eq!(action, StreamAction::HoldStreams);
}

#[test]
fn pause_before_start_is_ignored() {
    let (state, action) = worker_step(WorkerState::Idle, Some(AudioCommand::Pause));
    assert_eq!(state, WorkerState::Idle);
    assert_eq!(action, StreamAction::HoldStreams);
}

#[test]
fn exit_closes_from_any_live_state() {
    for from in [WorkerState::Idle, WorkerState::Running, WorkerState::Paused] {
        let (state, action) = worker_step(from, Some(AudioCommand::Exit));
        assert_eq!(state, WorkerState::Closed);
        assert_eq!(action, StreamAction::PauseStreams);
    }
}

#[test]
fn closed_worker_processes_nothing() {
    for cmd in [
        Some(AudioCommand::Play),
        Some(AudioCommand::Pause),
        Some(AudioCommand::Exit),
        None,
    ] {
        let (state, action) = worker_step(WorkerState::Closed, cmd);
        assert_eq!(state, WorkerState::Closed);
        assert_eq!(action, StreamAction::HoldStreams);
    }
}

#[test]
fn dropped_sender_ends_worker_quietly() {
    let (state, action) = worker_step(WorkerState::Running, None);
    assert_eq!(state, WorkerState::Closed);
    assert_eq!(action, StreamAction::HoldStreams);
}

#[test]
fn toggle_alternates_commands() {
    let (cmd, paused) = toggle_command(false);
    assert_eq!(cmd, AudioCommand::Pause);
    assert!(paused);
    let (cmd, paused) = toggle_command(true);
    assert_eq!(cmd, AudioCommand::Play);
    assert!(!paused);
}
