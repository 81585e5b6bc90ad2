use concoct::native::{web_view_step, WebAction, WebEvent, WebViewLoop};
use concoct::render::{topmost, InputKind, LoopAction, LoopEvent, LoopState};

#[test]
fn resume_then_suspend_round_trip() {
    let mut s = LoopState::new(true);
    assert!(!s.accepts(LoopEvent::Suspended));
    assert!(s.accepts(LoopEvent::Resumed));
    assert_eq!(s.step(LoopEvent::Resumed), vec![LoopAction::Resume { create_window: false }]);
    assert!(s.has_env && !s.has_gl_context && !s.has_window);
    assert!(!s.accepts(LoopEvent::Resumed));
    assert_eq!(s.step(LoopEvent::Suspended), vec![LoopAction::Suspend]);
    assert!(!s.has_env && s.has_gl_context);
    assert_eq!(s.step(LoopEvent::Resumed), vec![LoopAction::Resume { create_window: true }]);
}

#[test]
fn input_needs_the_environment_and_the_cursor() {
    let mut s = LoopState::new(false);
    assert!(!s.accepts(LoopEvent::Touch));
    assert!(!s.accepts(LoopEvent::MouseInput { has_handlers: false }));
    s.step(LoopEvent::Resumed);
    assert!(s.accepts(LoopEvent::MouseInput { has_handlers: false }));
    assert!(!s.accepts(LoopEvent::MouseInput { has_handlers: true }));
    assert_eq!(s.step(LoopEvent::CursorMoved), vec![LoopAction::RecordCursor]);
    assert!(s.accepts(LoopEvent::MouseInput { has_handlers: true }));
    assert_eq!(
        s.step(LoopEvent::MouseInput { has_handlers: true }),
        vec![
            LoopAction::Dispatch(InputKind::MouseInput),
            LoopAction::Recompose,
            LoopAction::RequestRedraw
        ]
    );
    assert_eq!(
        s.step(LoopEvent::KeyboardInput { has_key_code: false }),
        vec![LoopAction::Recompose, LoopAction::RequestRedraw]
    );
    assert_eq!(
        s.step(LoopEvent::Touch),
        vec![LoopAction::Dispatch(InputKind::Touch), LoopAction::Recompose, LoopAction::RequestRedraw]
    );
}

#[test]
fn redraw_and_resize_only_with_an_environment() {
    let mut s = LoopState::new(false);
    assert_eq!(s.step(LoopEvent::RedrawRequested), vec![]);
    assert_eq!(s.step(LoopEvent::Resized { width: 300, height: 200 }), vec![]);
    s.step(LoopEvent::Resumed);
    assert_eq!(s.step(LoopEvent::RedrawRequested), vec![LoopAction::Redraw]);
    assert_eq!(
        s.step(LoopEvent::Resized { width: 300, height: 200 }),
        vec![LoopAction::ResizeSurface { width: 300, height: 300 }]
    );
}

#[test]
fn close_exits_and_others_do_nothing() {
    let mut s = LoopState::new(false);
    assert_eq!(s.step(LoopEvent::MainEventsCleared), vec![]);
    assert_eq!(s.step(LoopEvent::LoopDestroyed), vec![]);
    assert_eq!(s.step(LoopEvent::Other), vec![]);
    assert_eq!(s.step(LoopEvent::ActionRequest), vec![LoopAction::LogActionRequest]);
    assert_eq!(s.step(LoopEvent::Task), vec![LoopAction::RunTask]);
    assert!(!s.exit);
    assert_eq!(s.step(LoopEvent::CloseRequested), vec![LoopAction::Exit]);
    assert!(s.exit);
}

#[test]
fn topmost_takes_the_highest_order_met_last() {
    assert_eq!(topmost(&vec![]), None);
    assert_eq!(topmost(&vec![None, None]), None);
    assert_eq!(topmost(&vec![Some(0), None, Some(0)]), Some(2));
    assert_eq!(topmost(&vec![Some(2), Some(1), None]), Some(0));
    assert_eq!(topmost(&vec![Some(1), Some(3), Some(2), Some(3), None]), Some(3));
}

#[test]
fn web_view_fills_the_window_and_exits_on_close() {
    assert_eq!(
        web_view_step(WebEvent::Resized { width: 800, height: 600 }, true),
        vec![WebAction::Poll, WebAction::SetBounds { x: 0, y: 0, width: 800, height: 600 }]
    );
    assert_eq!(
        web_view_step(WebEvent::Resized { width: 800, height: 600 }, false),
        vec![WebAction::Poll]
    );
    assert_eq!(
        web_view_step(WebEvent::CloseRequested, false),
        vec![WebAction::Poll, WebAction::Exit]
    );
    assert_eq!(web_view_step(WebEvent::Other, true), vec![WebAction::Poll]);
}

#[test]
fn web_view_loop_builds_once_then_steps() {
    let mut l = WebViewLoop::new();
    assert!(!l.built);
    assert_eq!(l.start(), WebAction::BuildViews);
    assert!(l.built);
    assert_eq!(l.step(WebEvent::Other, true), vec![WebAction::Poll]);
}
