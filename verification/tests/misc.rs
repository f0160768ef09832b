use std::cell::RefCell;
use std::rc::Rc;

use rsml::camera::{camera_motion, CameraKey, CameraMotion, ProjectionMode};
use rsml::color::Color;
use rsml::window::{
    clamp_surface_size, pick_surface_format, surface_action, LoopEvent, ManagedWindow, SurfaceAction,
    SurfaceStatus, WindowManager,
};

#[test]
fn random_color_is_opaque() {
    for _ in 0..20 {
        if let Some(c) = Color::random() {
            assert_eq!(c.a, 255);
        }
    }
}

#[test]
fn opaque_colors() {
    assert_eq!(Color::opaque(1, 2, 3), Color { r: 1, g: 2, b: 3, a: 255 });
    assert_eq!(Color::from_word(0xAABB_CCDD), Color { r: 0xDD, g: 0xCC, b: 0xBB, a: 255 });
    assert_eq!(Color::from_word(0), Color { r: 0, g: 0, b: 0, a: 255 });
}

#[test]
fn camera_keys() {
    assert_eq!(camera_motion(CameraKey::KeyW, true), Some(CameraMotion::RotateUp));
    assert_eq!(camera_motion(CameraKey::ArrowUp, true), Some(CameraMotion::RotateUp));
    assert_eq!(camera_motion(CameraKey::KeyS, true), Some(CameraMotion::RotateDown));
    assert_eq!(camera_motion(CameraKey::ArrowLeft, true), Some(CameraMotion::RotateLeft));
    assert_eq!(camera_motion(CameraKey::KeyD, true), Some(CameraMotion::RotateRight));
    assert_eq!(camera_motion(CameraKey::ShiftLeft, true), Some(CameraMotion::ZoomIn));
    assert_eq!(camera_motion(CameraKey::BracketRight, true), Some(CameraMotion::ZoomIn));
    assert_eq!(camera_motion(CameraKey::Slash, true), Some(CameraMotion::ZoomOut));
    assert_eq!(camera_motion(CameraKey::ControlLeft, true), Some(CameraMotion::ZoomOut));
    assert_eq!(camera_motion(CameraKey::Other, true), None);
    assert_eq!(camera_motion(CameraKey::KeyW, false), None);
    assert_ne!(ProjectionMode::PERSPECTIVE, ProjectionMode::ORTHOGRAPHIC);
}

#[test]
fn surface_size_is_limited() {
    assert_eq!(clamp_surface_size(800, 600, 8192), (800, 600));
    assert_eq!(clamp_surface_size(10000, 600, 8192), (8192, 600));
    assert_eq!(clamp_surface_size(800, 9000, 2048), (800, 2048));
}

#[test]
fn surface_actions() {
    assert_eq!(surface_action(SurfaceStatus::Success), SurfaceAction { reconfigure: false, render: true });
    assert_eq!(surface_action(SurfaceStatus::Suboptimal), SurfaceAction { reconfigure: true, render: true });
    assert_eq!(surface_action(SurfaceStatus::Timeout), SurfaceAction { reconfigure: false, render: false });
    assert_eq!(surface_action(SurfaceStatus::Occluded), SurfaceAction { reconfigure: false, render: false });
    assert_eq!(surface_action(SurfaceStatus::Validation), SurfaceAction { reconfigure: false, render: false });
    assert_eq!(surface_action(SurfaceStatus::Outdated), SurfaceAction { reconfigure: true, render: false });
    assert_eq!(surface_action(SurfaceStatus::Lost), SurfaceAction { reconfigure: false, render: false });
}

struct Probe {
    name: &'static str,
    log: Rc<RefCell<Vec<String>>>,
}

impl ManagedWindow for Probe {
    type Event = &'static str;

    fn resize(&mut self, width: u32, height: u32) {
        self.log.borrow_mut().push(format!("{} resize {width}x{height}", self.name));
    }

    fn draw(&mut self) {
        self.log.borrow_mut().push(format!("{} draw", self.name));
    }

    fn event(&mut self, event: &'static str) {
        self.log.borrow_mut().push(format!("{} {event}", self.name));
    }
}

#[test]
fn window_manager_routes_by_id() {
    let log = Rc::new(RefCell::new(Vec::new()));
    let mut wm = WindowManager::new();
    assert_eq!(wm.get_window_count(), 0);
    wm.add_window(1, Probe { name: "one", log: log.clone() });
    wm.add_window(2, Probe { name: "two", log: log.clone() });
    assert_eq!(wm.get_window_count(), 2);
    wm.resize_window(1, 640, 480);
    wm.draw_window(2);
    wm.window_event(1, "key");
    wm.draw_window(3);
    assert_eq!(*log.borrow(), vec!["one resize 640x480", "two draw", "one key"]);
    wm.close_window(2);
    wm.draw_window(2);
    assert_eq!(log.borrow().len(), 3);
    assert_eq!(wm.get_window_count(), 1);
    wm.close_window(2);
    assert_eq!(wm.get_window_count(), 1);
    wm.close_window(1);
    assert_eq!(wm.get_window_count(), 0);
}

#[test]
fn window_manager_dispatches_loop_events() {
    let log = Rc::new(RefCell::new(Vec::new()));
    let mut wm = WindowManager::new();
    wm.add_window(7, Probe { name: "seven", log: log.clone() });
    wm.add_window(8, Probe { name: "eight", log: log.clone() });
    assert!(!wm.handle_event(7, LoopEvent::RedrawRequested));
    assert!(!wm.handle_event(8, LoopEvent::Resized { width: 10, height: 20, event: "resized" }));
    assert!(!wm.handle_event(7, LoopEvent::Other("click")));
    assert_eq!(
        *log.borrow(),
        vec!["seven draw", "eight resize 10x20", "eight resized", "seven click"]
    );
    assert!(!wm.handle_event(7, LoopEvent::CloseRequested));
    assert_eq!(wm.get_window_count(), 1);
    assert!(wm.handle_event(8, LoopEvent::CloseRequested));
    assert_eq!(wm.get_window_count(), 0);
}

#[test]
fn surface_format_prefers_srgb() {

    assert_eq!(pick_surface_format(&vec![false, true, true]), 1);
    assert_eq!(pick_surface_format(&vec![true]), 0);
    assert_eq!(pick_surface_format(&vec![false, false]), 0);
}
