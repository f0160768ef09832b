use vstd::prelude::*;

use std::collections::HashMap;

verus! {

broadcast use vstd::std_specs::hash::group_hash_axioms;

/// The errors of opening a window, each with a message.
#[derive(Debug)]
pub enum WindowError {
    CreateWindowError(String),
    ShowWindowError(String),
}

/// The size of a window's surface: the window's size, limited in each direction to the
/// largest texture the device takes.
pub fn clamp_surface_size(width: u32, height: u32, max_tex_size: u32) -> (r: (u32, u32))
    ensures
        r.0 == if width <= max_tex_size { width } else { max_tex_size },
        r.1 == if height <= max_tex_size { height } else { max_tex_size },
{
    let w = if width <= max_tex_size { width } else { max_tex_size };
    let h = if height <= max_tex_size { height } else { max_tex_size };
    (w, h)
}

/// The index of the surface format a window draws to, from whether each format the surface
/// offers is sRGB: the first sRGB one, or the first of all where none is.
pub fn pick_surface_format(is_srgb: &Vec<bool>) -> (r: usize)
    requires
        is_srgb@.len() > 0,
    ensures
        r < is_srgb@.len(),
        (exists|i: int| 0 <= i < is_srgb@.len() && #[trigger] is_srgb@[i]) ==> {
            &&& is_srgb@[r as int]
            &&& forall|j: int| 0 <= j < r ==> !#[trigger] is_srgb@[j]
        },
        !(exists|i: int| 0 <= i < is_srgb@.len() && #[trigger] is_srgb@[i]) ==> r == 0,
{
    let mut i: usize = 0;
    while i < is_srgb.len()
        invariant
            0 <= i <= is_srgb@.len(),
            forall|j: int| 0 <= j < i ==> !#[trigger] is_srgb@[j],
        decreases is_srgb.len() - i,
    {
        if is_srgb[i] {
            return i;
        }
        i = i + 1;
    }
    0
}

/// What acquiring the next texture of a window's surface gave.
#[derive(Clone, Copy, Debug, PartialEq, Eq, Structural)]
pub enum SurfaceStatus {
    /// A texture that matches the surface.
    Success,
    /// A texture, though the surface changed since it was configured.
    Suboptimal,
    /// No texture in time.
    Timeout,
    /// The window is hidden.
    Occluded,
    /// The device reported a validation error.
    Validation,
    /// The surface changed and its configuration no longer fits it.
    Outdated,
    /// The surface is gone.
    Lost,
}

/// What drawing a window does with the texture it got: configure the surface anew, and draw
/// the frame.
#[derive(Clone, Copy, Debug, PartialEq, Eq, Structural)]
pub struct SurfaceAction {
    pub reconfigure: bool,
    pub render: bool,
}

/// The frame is drawn when a texture came back; the surface is configured anew when the
/// texture was suboptimal or the configuration outdated.
pub fn surface_action(status: SurfaceStatus) -> (r: SurfaceAction)
    ensures
        r.render == (status == SurfaceStatus::Success || status == SurfaceStatus::Suboptimal),
        r.reconfigure == (status == SurfaceStatus::Suboptimal || status == SurfaceStatus::Outdated),
{
    match status {
        SurfaceStatus::Success => SurfaceAction { reconfigure: false, render: true },
        SurfaceStatus::Suboptimal => SurfaceAction { reconfigure: true, render: true },
        SurfaceStatus::Timeout | SurfaceStatus::Occluded | SurfaceStatus::Validation => SurfaceAction {
            reconfigure: false,
            render: false,
        },
        SurfaceStatus::Outdated => SurfaceAction { reconfigure: true, render: false },
        SurfaceStatus::Lost => SurfaceAction { reconfigure: false, render: false },
    }
}

/// A window that a `WindowManager` hands the events of the event loop to. A window type may
/// say, by the three relations, what its methods do to it; by default they say nothing.
pub trait ManagedWindow: Sized {
    /// What the event loop reports of a window.
    type Event;

    /// `self` is what `before` became on being told it now measures `width` by `height`.
    open spec fn resized(&self, before: Self, width: u32, height: u32) -> bool {
        true
    }

    /// `self` is what `before` became on being drawn.
    open spec fn drawn(&self, before: Self) -> bool {
        true
    }

    /// `self` is what `before` became on being handed `event`.
    open spec fn handled(&self, before: Self, event: Self::Event) -> bool {
        true
    }

    /// The window now measures `width` by `height` pixels.
    fn resize(&mut self, width: u32, height: u32)
        ensures
            final(self).resized(*old(self), width, height),
    ;

    /// The window is to be drawn.
    fn draw(&mut self)
        ensures
            final(self).drawn(*old(self)),
    ;

    /// Any other event of the window.
    fn event(&mut self, event: Self::Event)
        ensures
            final(self).handled(*old(self), event),
    ;
}

/// An event of the event loop for one window, as the window manager tells them apart.
pub enum LoopEvent<E> {
    /// The user asked to close the window.
    CloseRequested,
    /// The window is to be drawn.
    RedrawRequested,
    /// The window now measures `width` by `height`; `event` is the same event as the window
    /// itself receives it.
    Resized { width: u32, height: u32, event: E },
    /// Any other event.
    Other(E),
}

/// The open windows of an application, by window id.
pub struct WindowManager<W> {
    window_map: HashMap<u64, W>,
}

impl<W: ManagedWindow> WindowManager<W> {
    /// The open windows.
    pub closed spec fn windows(&self) -> Map<u64, W> {
        self.window_map@
    }

    /// No window open.
    pub fn new() -> (r: Self)
        ensures
            r.windows() == Map::<u64, W>::empty(),
    {
        Self { window_map: HashMap::new() }
    }

    /// Adds an opened window under its id, in place of any window of that id.
    pub fn add_window(&mut self, window_id: u64, window: W)
        ensures
            final(self).windows() == old(self).windows().insert(window_id, window),
    {
        self.window_map.insert(window_id, window);
    }

    /// Takes the window of `window_id` out of the map.
    fn take_window(&mut self, window_id: u64) -> (r: Option<W>)
        ensures
            final(self).windows() == old(self).windows().remove(window_id),
            r == (if old(self).windows().contains_key(window_id) {
                Some(old(self).windows()[window_id])
            } else {
                None
            }),
    {
        self.window_map.remove(&window_id)
    }

    /// Tells the window of `window_id`, if it is open, its new size.
    pub fn resize_window(&mut self, window_id: u64, width: u32, height: u32)
        ensures
            final(self).windows().dom() == old(self).windows().dom(),
            old(self).windows().contains_key(window_id) ==> final(self).windows()[window_id].resized(
                old(self).windows()[window_id],
                width,
                height,
            ),
            forall|id: u64| #[trigger]
                old(self).windows().contains_key(id) && id != window_id ==> final(self).windows()[id]
                    == old(self).windows()[id],
    {
        if let Some(mut window) = self.take_window(window_id) {
            window.resize(width, height);
            self.window_map.insert(window_id, window);
        }
        assert(self.windows().dom() =~= old(self).windows().dom());
    }

    /// Draws the window of `window_id`, if it is open.
    pub fn draw_window(&mut self, window_id: u64)
        ensures
            final(self).windows().dom() == old(self).windows().dom(),
            old(self).windows().contains_key(window_id) ==> final(self).windows()[window_id].drawn(
                old(self).windows()[window_id],
            ),
            forall|id: u64| #[trigger]
                old(self).windows().contains_key(id) && id != window_id ==> final(self).windows()[id]
                    == old(self).windows()[id],
    {
        if let Some(mut window) = self.take_window(window_id) {
            window.draw();
            self.window_map.insert(window_id, window);
        }
        assert(self.windows().dom() =~= old(self).windows().dom());
    }

    /// Hands `event` to the window of `window_id`, if it is open.
    pub fn window_event(&mut self, window_id: u64, event: W::Event)
        ensures
            final(self).windows().dom() == old(self).windows().dom(),
            old(self).windows().contains_key(window_id) ==> final(self).windows()[window_id].handled(
                old(self).windows()[window_id],
                event,
            ),
            forall|id: u64| #[trigger]
                old(self).windows().contains_key(id) && id != window_id ==> final(self).windows()[id]
                    == old(self).windows()[id],
    {
        if let Some(mut window) = self.take_window(window_id) {
            window.event(event);
            self.window_map.insert(window_id, window);
        }
        assert(self.windows().dom() =~= old(self).windows().dom());
    }

    /// Closes the window of `window_id`, if it is open.
    pub fn close_window(&mut self, window_id: u64)
        ensures
            final(self).windows() == old(self).windows().remove(window_id),
    {
        self.window_map.remove(&window_id);
    }

    /// Hands an event of the event loop to the window of `window_id`: a close request closes
    /// it, a redraw request draws it, a new size is told to it and then handed to it as an
    /// event, any other event is handed to it. Gives back whether the application should end:
    /// when the last window was closed.
    pub fn handle_event(&mut self, window_id: u64, event: LoopEvent<W::Event>) -> (exit: bool)
        ensures
            match event {
                LoopEvent::CloseRequested => {
                    &&& final(self).windows() == old(self).windows().remove(window_id)
                    &&& exit == (final(self).windows().len() == 0)
                },
                LoopEvent::RedrawRequested => {
                    &&& !exit
                    &&& final(self).windows().dom() == old(self).windows().dom()
                    &&& old(self).windows().contains_key(window_id) ==> final(self).windows()[window_id].drawn(
                        old(self).windows()[window_id],
                    )
                },
                LoopEvent::Resized { width, height, event } => {
                    &&& !exit
                    &&& final(self).windows().dom() == old(self).windows().dom()
                    &&& old(self).windows().contains_key(window_id) ==> exists|resized: W| #[trigger]
                        resized.resized(old(self).windows()[window_id], width, height)
                            && final(self).windows()[window_id].handled(resized, event)
                },
                LoopEvent::Other(event) => {
                    &&& !exit
                    &&& final(self).windows().dom() == old(self).windows().dom()
                    &&& old(self).windows().contains_key(window_id) ==> final(self).windows()[window_id].handled(
                        old(self).windows()[window_id],
                        event,
                    )
                },
            },
            forall|id: u64| #[trigger]
                old(self).windows().contains_key(id) && id != window_id ==> final(self).windows()[id]
                    == old(self).windows()[id],
    {
        match event {
            LoopEvent::CloseRequested => {
                self.close_window(window_id);
                self.get_window_count() == 0
            },
            LoopEvent::RedrawRequested => {
                self.draw_window(window_id);
                false
            },
            LoopEvent::Resized { width, height, event } => {
                let ghost before = self.windows();
                self.resize_window(window_id, width, height);
                let ghost middle = self.windows();
                self.window_event(window_id, event);
                proof {
                    if before.contains_key(window_id) {
                        assert(middle.contains_key(window_id));
                        assert(middle[window_id].resized(before[window_id], width, height));
                    }
                }
                false
            },
            LoopEvent::Other(event) => {
                self.window_event(window_id, event);
                false
            },
        }
    }

    /// How many windows are open.
    pub fn get_window_count(&self) -> (r: usize)
        ensures
            r == self.windows().len(),
    {
        self.window_map.len()
    }
}

} // verus!
