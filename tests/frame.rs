use cloth_sim::frame::{batch_count, FrameAction, FrameCoordinator, FrameEvent, FramePhase};

#[test]
fn batch_counts() {
    assert_eq!(batch_count(0), 0);
    assert_eq!(batch_count(1), 1);
    assert_eq!(batch_count(64), 1);
    assert_eq!(batch_count(65), 2);
    assert_eq!(batch_count(10000), 157);
    assert_eq!(batch_count(u32::MAX), 67108864);
}

#[test]
fn frame_runs_in_order() {
    let mut f = FrameCoordinator::new(10000, 58806);
    for _ in 0..2 {
        assert_eq!(f.on_event(FrameEvent::FrameStart), FrameAction::WriteUniform { vertex_count: 10000 });
        assert_eq!(f.on_event(FrameEvent::Completed), FrameAction::Dispatch { batches: 157 });
        assert_eq!(f.on_event(FrameEvent::Completed), FrameAction::Draw { index_count: 58806 });
        assert_eq!(f.on_event(FrameEvent::Completed), FrameAction::FrameDone);
        assert_eq!(f.phase, FramePhase::Idle);
    }
}

#[test]
fn out_of_order_events_do_nothing() {
    let mut f = FrameCoordinator::new(4, 6);
    assert_eq!(f.on_event(FrameEvent::Completed), FrameAction::Nothing);
    assert_eq!(f.phase, FramePhase::Idle);
    f.on_event(FrameEvent::FrameStart);
    assert_eq!(f.on_event(FrameEvent::FrameStart), FrameAction::Nothing);
    assert_eq!(f.phase, FramePhase::UniformPending);
}

#[test]
fn device_failure_is_fatal_until_recovered() {
    let mut f = FrameCoordinator::new(4, 6);
    f.on_event(FrameEvent::FrameStart);
    f.on_event(FrameEvent::Completed);
    assert_eq!(f.on_event(FrameEvent::DeviceFailure), FrameAction::Abort);
    assert_eq!(f.phase, FramePhase::Failed);
    assert_eq!(f.on_event(FrameEvent::FrameStart), FrameAction::Nothing);
    assert_eq!(f.on_event(FrameEvent::Completed), FrameAction::Nothing);
    f.recover();
    assert_eq!(f.phase, FramePhase::Idle);
    assert_eq!(f.on_event(FrameEvent::FrameStart), FrameAction::WriteUniform { vertex_count: 4 });
}
