use vstd::prelude::*;

verus! {

/// How a camera projects the scene: with perspective, or orthographically.
#[allow(non_camel_case_types)]
#[derive(Clone, Copy, Debug, PartialEq, Eq, Structural)]
pub enum ProjectionMode {
    PERSPECTIVE,
    ORTHOGRAPHIC,
}

/// The keys that move the camera around its target.
#[derive(Clone, Copy, Debug, PartialEq, Eq, Structural)]
pub enum CameraKey {
    KeyW,
    ArrowUp,
    KeyS,
    ArrowDown,
    KeyA,
    ArrowLeft,
    KeyD,
    ArrowRight,
    BracketRight,
    ShiftLeft,
    Slash,
    ControlLeft,
    /// Any other key.
    Other,
}

/// A move of the camera on the sphere around its target.
#[derive(Clone, Copy, Debug, PartialEq, Eq, Structural)]
pub enum CameraMotion {
    /// Towards the upper pole.
    RotateUp,
    /// Towards the lower pole.
    RotateDown,
    /// Around the vertical axis, one way.
    RotateLeft,
    /// Around the vertical axis, the other way.
    RotateRight,
    /// Closer to the target.
    ZoomIn,
    /// Farther from the target.
    ZoomOut,
}

/// The move that a key does when pressed: W or up, S or down, A or left, D or right rotate;
/// `]` or left shift zoom in, `/` or left control zoom out; a released key or any other key
/// does nothing.
pub fn camera_motion(key: CameraKey, is_pressed: bool) -> (r: Option<CameraMotion>)
    ensures
        !is_pressed ==> r.is_none(),
        is_pressed ==> r == match key {
            CameraKey::KeyW | CameraKey::ArrowUp => Some(CameraMotion::RotateUp),
            CameraKey::KeyS | CameraKey::ArrowDown => Some(CameraMotion::RotateDown),
            CameraKey::KeyA | CameraKey::ArrowLeft => Some(CameraMotion::RotateLeft),
            CameraKey::KeyD | CameraKey::ArrowRight => Some(CameraMotion::RotateRight),
            CameraKey::BracketRight | CameraKey::ShiftLeft => Some(CameraMotion::ZoomIn),
            CameraKey::Slash | CameraKey::ControlLeft => Some(CameraMotion::ZoomOut),
            CameraKey::Other => None::<CameraMotion>,
        },
{
    if !is_pressed {
        return None;
    }
    match key {
        CameraKey::KeyW | CameraKey::ArrowUp => Some(CameraMotion::RotateUp),
        CameraKey::KeyS | CameraKey::ArrowDown => Some(CameraMotion::RotateDown),
        CameraKey::KeyA | CameraKey::ArrowLeft => Some(CameraMotion::RotateLeft),
        CameraKey::KeyD | CameraKey::ArrowRight => Some(CameraMotion::RotateRight),
        CameraKey::BracketRight | CameraKey::ShiftLeft => Some(CameraMotion::ZoomIn),
        CameraKey::Slash | CameraKey::ControlLeft => Some(CameraMotion::ZoomOut),
        CameraKey::Other => None,
    }
}

} // verus!
