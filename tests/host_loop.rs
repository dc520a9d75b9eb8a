use frame_trigger::cycle::{FrameCycle, StimulusState};
use frame_trigger::link::{check_write, command_for, LinkError, TriggerCommand};
use frame_trigger::surface::SurfaceSize;
use frame_trigger::trigger_loop::{
    is_frame_skipped, ColorSpec, LoopAction, Presentation, TriggerLoop,
};

fn run_opportunity(lp: &mut TriggerLoop, outcome: Presentation) -> (StimulusState, LoopAction) {
    let state = lp.begin_opportunity();
    let action = lp.finish_opportunity(outcome);
    (state, action)
}

#[test]
fn stimulus_only_at_zero() {
    let mut cycle = FrameCycle::new(5);
    let mut seen = Vec::new();
    for _ in 0..10 {
        seen.push((cycle.value(), cycle.stimulus_state()));
        cycle.advance();
    }
    for (value, state) in seen {
        assert_eq!(state == StimulusState::Stimulus, value == 0);
    }
}

#[test]
fn cycle_wraps_at_period() {
    let mut cycle = FrameCycle::new(3);
    assert_eq!(cycle.period(), 3);
    let mut values = Vec::new();
    for _ in 0..7 {
        values.push(cycle.value());
        cycle.advance();
    }
    assert_eq!(values, vec![0, 1, 2, 0, 1, 2, 0]);
}

#[test]
fn period_of_one_always_stimulus() {
    let mut lp = TriggerLoop::new(1);
    for _ in 0..4 {
        let (state, action) = run_opportunity(&mut lp, Presentation::Presented);
        assert_eq!(state, StimulusState::Stimulus);
        assert_eq!(action, LoopAction::Signal(TriggerCommand::Assert));
    }
}

#[test]
fn sixty_hz_window_asserts_once() {
    let colors = ColorSpec::new(0.2f64, 0.9f64);
    let mut lp = TriggerLoop::new(60);
    let mut asserted = Vec::new();
    let mut window_asserts = 0;
    for frame in 0..61 {
        let state = lp.begin_opportunity();
        let color = *colors.color_for(state);
        let action = lp.finish_opportunity(Presentation::Presented);
        match action {
            LoopAction::Signal(TriggerCommand::Assert) => {
                assert_eq!(color, 0.9);
                asserted.push(frame);
                if frame < 60 {
                    window_asserts += 1;
                }
            }
            LoopAction::Signal(TriggerCommand::Deassert) => assert_eq!(color, 0.2),
            other => panic!("unexpected action {:?}", other),
        }
    }
    assert_eq!(asserted, vec![0, 60]);
    assert_eq!(window_asserts, 1);
}

#[test]
fn outdated_skips_trigger_but_advances() {
    let mut lp = TriggerLoop::new(4);
    let (_, first) = run_opportunity(&mut lp, Presentation::Presented);
    assert_eq!(first, LoopAction::Signal(TriggerCommand::Assert));
    assert_eq!(lp.frame_cycle(), 1);
    let (state, skipped) = run_opportunity(&mut lp, Presentation::Outdated);
    assert_eq!(state, StimulusState::Background);
    assert_eq!(skipped, LoopAction::Skip);
    assert_eq!(lp.frame_cycle(), 2);
    let (state, next) = run_opportunity(&mut lp, Presentation::Presented);
    assert_eq!(state, StimulusState::Background);
    assert_eq!(next, LoopAction::Signal(TriggerCommand::Deassert));
    assert_eq!(lp.frame_cycle(), 3);
    let (_, _) = run_opportunity(&mut lp, Presentation::Presented);
    let (state, wrapped) = run_opportunity(&mut lp, Presentation::Presented);
    assert_eq!(state, StimulusState::Stimulus);
    assert_eq!(wrapped, LoopAction::Signal(TriggerCommand::Assert));
}

#[test]
fn skipped_stimulus_is_not_retried() {
    let mut lp = TriggerLoop::new(3);
    let (state, action) = run_opportunity(&mut lp, Presentation::Lost);
    assert_eq!(state, StimulusState::Stimulus);
    assert_eq!(action, LoopAction::Skip);
    let (state, action) = run_opportunity(&mut lp, Presentation::Presented);
    assert_eq!(state, StimulusState::Background);
    assert_eq!(action, LoopAction::Signal(TriggerCommand::Deassert));
}

#[test]
fn timeout_skips_and_out_of_memory_terminates() {
    let mut lp = TriggerLoop::new(2);
    let (_, action) = run_opportunity(&mut lp, Presentation::Timeout);
    assert_eq!(action, LoopAction::Skip);
    let (_, action) = run_opportunity(&mut lp, Presentation::OutOfMemory);
    assert_eq!(action, LoopAction::Terminate);
}

#[test]
fn signal_only_after_presentation() {
    let mut lp = TriggerLoop::new(2);
    assert_eq!(lp.pending(), None);
    let state = lp.begin_opportunity();
    assert_eq!(lp.pending(), Some(command_for(state)));
    let action = lp.finish_opportunity(Presentation::Presented);
    assert_eq!(action, LoopAction::Signal(TriggerCommand::Assert));
    assert_eq!(lp.pending(), None);
    // no opportunity in progress: a presentation answer writes nothing
    assert_eq!(lp.finish_opportunity(Presentation::Presented), LoopAction::Skip);
}

#[test]
fn colors_follow_state() {
    let colors = ColorSpec::new(1u8, 2u8);
    assert_eq!(*colors.color_for(StimulusState::Background), 1);
    assert_eq!(*colors.color_for(StimulusState::Stimulus), 2);
}

#[test]
fn command_wire_bytes() {
    assert_eq!(TriggerCommand::Assert.wire_byte(), 0x01);
    assert_eq!(TriggerCommand::Deassert.wire_byte(), 0x00);
    assert_eq!(command_for(StimulusState::Stimulus), TriggerCommand::Assert);
    assert_eq!(command_for(StimulusState::Background), TriggerCommand::Deassert);
}

#[test]
fn one_byte_write_succeeds() {
    assert_eq!(check_write(Ok(1)), Ok(()));
}

#[test]
fn wrong_byte_count_is_link_error() {
    assert_eq!(check_write(Ok(0)), Err(LinkError::WrongByteCount { written: 0 }));
    assert_eq!(check_write(Ok(2)), Err(LinkError::WrongByteCount { written: 2 }));
}

#[test]
fn transport_error_passes_through() {
    assert_eq!(check_write(Err(LinkError::Transport)), Err(LinkError::Transport));
}

#[test]
fn degenerate_resize_ignored() {
    let mut size = SurfaceSize::new(800, 600);
    assert!(!size.resize(0, 480));
    assert!(!size.resize(640, 0));
    assert_eq!(size, SurfaceSize::new(800, 600));
    assert!(size.resize(1920, 1080));
    assert_eq!(size, SurfaceSize::new(1920, 1080));
}

#[test]
fn skipped_frame_threshold() {
    assert!(!is_frame_skipped(16));
    assert!(!is_frame_skipped(20));
    assert!(is_frame_skipped(21));
}
