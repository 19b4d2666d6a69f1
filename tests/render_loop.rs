use ldraw_viewer::bridge::{Location, ResolutionError};
use ldraw_viewer::render_loop::{LoopAction, LoopState, MouseButton, RenderLoop, WindowEvent};

fn colors() -> Result<Vec<u8>, ResolutionError> {
    Ok(b"0 colors".to_vec())
}

fn root() -> Result<(Location, Vec<u8>), ResolutionError> {
    Ok((Location::Library, b"0 car".to_vec()))
}

#[test]
fn failed_initial_load_leaves_loop_unbound() {
    let mut l = RenderLoop::new();
    l.bind(10, &Err(ResolutionError::FileNotFound), &root());
    assert_eq!(l.state(), LoopState::Unbound);
    l.bind(10, &colors(), &Err(ResolutionError::Decode));
    assert_eq!(l.state(), LoopState::Unbound);
    l.bind(20, &colors(), &root());
    assert_eq!(l.state(), LoopState::Bound { start_ms: 20, redraws: 0 });
}

#[test]
fn unbound_loop_ignores_events() {
    let mut l = RenderLoop::new();
    assert_eq!(l.step(WindowEvent::RedrawRequested, 5, false), LoopAction::Nothing);
    assert_eq!(l.state(), LoopState::Unbound);
}

#[test]
fn bound_loop_renders_with_elapsed_time() {
    let mut l = RenderLoop::new();
    l.bind(1000, &colors(), &root());
    assert_eq!(l.step(WindowEvent::AboutToWait, 1010, false), LoopAction::RequestRedraw);
    assert_eq!(l.step(WindowEvent::RedrawRequested, 1250, false), LoopAction::Render { elapsed_ms: 250 });
    assert_eq!(l.state(), LoopState::Bound { start_ms: 1000, redraws: 1 });
    l.bind(5000, &colors(), &root());
    assert_eq!(l.state(), LoopState::Bound { start_ms: 1000, redraws: 1 });
}

#[test]
fn input_and_resize_are_dispatched() {
    let mut l = RenderLoop::new();
    l.bind(100, &colors(), &root());
    assert_eq!(
        l.step(WindowEvent::Resized { width: 640, height: 480 }, 150, false),
        LoopAction::Resize { width: 640, height: 480 }
    );
    let right = WindowEvent::MouseInput { pressed: true, button: MouseButton::Right };
    assert_eq!(l.step(right, 400, true), LoopAction::Advance { elapsed_ms: 300 });
    let left = WindowEvent::MouseInput { pressed: true, button: MouseButton::Left };
    assert_eq!(l.step(left, 500, false), LoopAction::Forward { elapsed_ms: 400 });
    assert_eq!(l.step(WindowEvent::Other, 600, true), LoopAction::Nothing);
    assert_eq!(l.step(WindowEvent::Occluded(false), 700, false), LoopAction::Forward { elapsed_ms: 600 });
    assert_eq!(l.step(WindowEvent::RedrawRequested, 50, false), LoopAction::Render { elapsed_ms: 0 });
}

#[test]
fn occlusion_after_redraws_terminates_for_good() {
    let mut l = RenderLoop::new();
    l.bind(0, &colors(), &root());
    for i in 0..5u64 {
        assert_eq!(l.step(WindowEvent::RedrawRequested, i * 16, false), LoopAction::Render { elapsed_ms: i * 16 });
    }
    assert_eq!(l.state(), LoopState::Bound { start_ms: 0, redraws: 5 });
    assert_eq!(l.step(WindowEvent::Occluded(true), 100, false), LoopAction::Exit);
    assert!(l.is_terminated());
    assert_eq!(l.step(WindowEvent::RedrawRequested, 116, false), LoopAction::Nothing);
    assert_eq!(l.step(WindowEvent::Occluded(false), 132, false), LoopAction::Nothing);
    l.bind(200, &colors(), &root());
    assert_eq!(l.state(), LoopState::Terminated);
}
