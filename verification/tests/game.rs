use kolibri_engine::error::EngineError;
use kolibri_engine::game::{frame_action, surface_extent, Attempt, FrameAction, SurfaceStatus, Timings};

#[test]
fn timings_start_together() {
    let t = Timings::new();
    assert_eq!(t.world_start, t.scene_start);
    assert_eq!(t.scene_start, t.last_frame);
}

#[test]
fn reset_scene_and_tick_move_only_their_own_instant() {
    let mut t = Timings::new();
    let world = t.world_start;
    let frame = t.last_frame;
    t.reset_scene();
    assert_eq!(t.world_start, world);
    assert_eq!(t.last_frame, frame);
    assert!(t.scene_start >= frame);
    let scene = t.scene_start;
    t.tick();
    assert_eq!(t.world_start, world);
    assert_eq!(t.scene_start, scene);
    assert!(t.last_frame >= scene);
}

#[test]
fn first_attempt_actions() {
    assert_eq!(frame_action(SurfaceStatus::Success, Attempt::First), FrameAction::Render);
    assert_eq!(frame_action(SurfaceStatus::Suboptimal, Attempt::First), FrameAction::ReconfigureAndRetry);
    assert_eq!(frame_action(SurfaceStatus::Outdated, Attempt::First), FrameAction::ReconfigureAndSkip);
    assert_eq!(frame_action(SurfaceStatus::Other, Attempt::First), FrameAction::DropContext);
}

#[test]
fn retry_renders_or_skips() {
    assert_eq!(frame_action(SurfaceStatus::Success, Attempt::Retry), FrameAction::Render);
    assert_eq!(frame_action(SurfaceStatus::Suboptimal, Attempt::Retry), FrameAction::Skip);
    assert_eq!(frame_action(SurfaceStatus::Outdated, Attempt::Retry), FrameAction::Skip);
    assert_eq!(frame_action(SurfaceStatus::Other, Attempt::Retry), FrameAction::Skip);
}

#[test]
fn surface_extent_is_at_least_one() {
    assert_eq!(surface_extent(0, 0), (1, 1));
    assert_eq!(surface_extent(1280, 0), (1280, 1));
    assert_eq!(surface_extent(0, 720), (1, 720));
    assert_eq!(surface_extent(1280, 720), (1280, 720));
}

#[test]
fn error_constructors() {
    assert!(matches!(EngineError::init("a".to_string()), EngineError::Init(m) if m == "a"));
    assert!(matches!(EngineError::state("b".to_string()), EngineError::State(m) if m == "b"));
    assert!(matches!(EngineError::input("c".to_string()), EngineError::State(m) if m == "c"));
}

#[test]
fn start_scene_at_and_tick_at_store_the_given_instant() {
    let mut t = Timings::new();
    let world = t.world_start;
    let later = std::time::Instant::now();
    t.start_scene_at(later);
    assert_eq!(t.scene_start, later);
    assert_eq!(t.world_start, world);
    let frame = std::time::Instant::now();
    t.tick_at(frame);
    assert_eq!(t.last_frame, frame);
    assert_eq!(t.scene_start, later);
    assert_eq!(t.world_start, world);
}
