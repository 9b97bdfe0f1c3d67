use renderer::presentation::{
    frame_action, preferred_format_index, respond_to_window_event, workgroups_for, FrameAction, Key,
    SurfaceSize, SurfaceStatus, WindowInput, WindowResponse,
};

#[test]
fn events_before_setup_are_ignored() {
    for e in [
        WindowInput::CloseRequested,
        WindowInput::KeyPressed(Key::Escape),
        WindowInput::KeyPressed(Key::S),
        WindowInput::Resized { width: 3, height: 4 },
        WindowInput::RedrawRequested,
    ] {
        assert_eq!(respond_to_window_event(false, e), WindowResponse::Ignore);
    }
}

#[test]
fn events_after_setup() {
    assert_eq!(respond_to_window_event(true, WindowInput::CloseRequested), WindowResponse::Exit);
    assert_eq!(respond_to_window_event(true, WindowInput::KeyPressed(Key::Escape)), WindowResponse::Exit);
    assert_eq!(respond_to_window_event(true, WindowInput::KeyPressed(Key::S)), WindowResponse::SavePng);
    assert_eq!(respond_to_window_event(true, WindowInput::KeyPressed(Key::Other)), WindowResponse::Ignore);
    assert_eq!(
        respond_to_window_event(true, WindowInput::Resized { width: 800, height: 0 }),
        WindowResponse::ResizeAndRedraw { width: 800, height: 0 }
    );
    assert_eq!(respond_to_window_event(true, WindowInput::RedrawRequested), WindowResponse::Render);
    assert_eq!(respond_to_window_event(true, WindowInput::Other), WindowResponse::Ignore);
}

#[test]
fn surface_size_is_never_zero() {
    assert_eq!(SurfaceSize::for_window(0, 0), SurfaceSize { width: 1, height: 1 });
    assert_eq!(SurfaceSize::for_window(640, 0), SurfaceSize { width: 640, height: 1 });
    let mut s = SurfaceSize::for_window(600, 600);
    assert!(!s.resize(0, 300));
    assert_eq!(s, SurfaceSize { width: 600, height: 600 });
    assert!(!s.resize(300, 0));
    assert_eq!(s, SurfaceSize { width: 600, height: 600 });
    assert!(s.resize(1200, 600));
    assert_eq!(s, SurfaceSize { width: 1200, height: 600 });
}

#[test]
fn prefers_first_non_srgb_format() {
    assert_eq!(preferred_format_index(&[true, false, false]), 1);
    assert_eq!(preferred_format_index(&[false, true]), 0);
    assert_eq!(preferred_format_index(&[true, true]), 0);
    assert_eq!(preferred_format_index(&[true]), 0);
}

#[test]
fn frame_actions() {
    assert_eq!(frame_action(SurfaceStatus::Success), FrameAction::Draw);
    assert_eq!(frame_action(SurfaceStatus::Suboptimal), FrameAction::Draw);
    assert_eq!(frame_action(SurfaceStatus::Outdated), FrameAction::Reconfigure);
    assert_eq!(frame_action(SurfaceStatus::Lost), FrameAction::Reconfigure);
    assert_eq!(frame_action(SurfaceStatus::Timeout), FrameAction::Skip);
    assert_eq!(frame_action(SurfaceStatus::Occluded), FrameAction::Skip);
    assert_eq!(frame_action(SurfaceStatus::Validation), FrameAction::Skip);
}

#[test]
fn workgroups_cover_image() {
    assert_eq!(workgroups_for(600, 600, 8), (75, 75));
    assert_eq!(workgroups_for(601, 7, 8), (76, 1));
    assert_eq!(workgroups_for(0, 0, 8), (0, 0));
}
