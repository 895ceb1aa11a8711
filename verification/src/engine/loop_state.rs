//! What the main loop keeps between one frame and the next, and what it is
//! told after each pass.

use vstd::prelude::*;

use crate::engine::{Mouse, TextMetrics};
use crate::keys::Key;

verus! {

/// Which way to switch the window.
#[derive(Clone, Copy, Debug, PartialEq, Eq, Structural)]
pub enum FullscreenAction {
    SwitchToFullscreen,
    SwitchToWindowed,
}

/// Whether the window is to change its size, and to what, in pixels.
#[derive(Clone, Copy, Debug)]
pub enum ResizeWindowAction {
    NewSize((u32, u32)),
    NoChange,
}

/// Whether the game goes on.
#[derive(Clone, Copy, Debug, PartialEq, Eq, Structural)]
pub enum UpdateResult {
    QuitRequested,
    KeepGoing,
}

/// The measures in use.
#[derive(Clone, Copy, Debug, PartialEq, Eq, Structural)]
pub struct Metrics {
    pub tile_width_px: i32,
    pub text_width_px: i32,
}

impl TextMetrics for Metrics {
    fn tile_width_px(&self) -> (width: i32)
        ensures
            width == self.tile_width_px,
    {
        self.tile_width_px
    }

    fn text_width_px(&self) -> (width: i32)
        ensures
            width == self.text_width_px,
    {
        self.text_width_px
    }
}

/// The length of the stretch over which frames are counted, in
/// milliseconds.
pub const FPS_WINDOW_MS: u64 = 1000;

/// What the main loop keeps between one frame and the next.
#[derive(Clone, Debug)]
pub struct LoopState {
    /// Whether the window is to fill the screen.
    pub fullscreen: bool,
    /// Whether the window was to fill the screen when this was last acted
    /// on.
    pub previous_fullscreen: bool,
    /// Whether the window has just been switched back from filling the
    /// screen.
    pub switched_from_fullscreen: bool,
    /// The pointer as it is now.
    pub mouse: Mouse,
    /// The keys pressed since the last tick.
    pub keys: Vec<Key>,
    /// The time since the frames were last counted, in milliseconds.
    pub fps_clock: u64,
    pub frames_in_current_second: i32,
    /// The number of frames of the last full second.
    pub fps: i32,
    /// The number of the frame; it starts over when it runs out of numbers.
    pub current_frame_id: i32,
}

/// What a `LoopState` holds, as plain values.
pub struct LoopStateView {
    pub fullscreen: bool,
    pub previous_fullscreen: bool,
    pub switched_from_fullscreen: bool,
    pub mouse: Mouse,
    pub keys: Seq<Key>,
    pub fps_clock: u64,
    pub frames_in_current_second: i32,
    pub fps: i32,
    pub current_frame_id: i32,
}

impl View for LoopState {
    type V = LoopStateView;

    open spec fn view(&self) -> LoopStateView {
        LoopStateView {
            fullscreen: self.fullscreen,
            previous_fullscreen: self.previous_fullscreen,
            switched_from_fullscreen: self.switched_from_fullscreen,
            mouse: self.mouse,
            keys: self.keys@,
            fps_clock: self.fps_clock,
            frames_in_current_second: self.frames_in_current_second,
            fps: self.fps,
            current_frame_id: self.current_frame_id,
        }
    }
}

impl LoopStateView {
    /// The state after a frame that took `dt` milliseconds. Once more than
    /// a second has passed since the frames were last counted, the count
    /// becomes the number of frames per second and starts again at one.
    pub open spec fn after_frame(self, dt: u64) -> LoopStateView {
        let clock = if self.fps_clock + dt > u64::MAX {
            u64::MAX
        } else {
            (self.fps_clock + dt) as u64
        };
        let frames = self.frames_in_current_second.wrapping_add(1);
        let frame_id = self.current_frame_id.wrapping_add(1);
        if clock > FPS_WINDOW_MS {
            LoopStateView {
                fps: frames,
                frames_in_current_second: 1,
                fps_clock: 0,
                current_frame_id: frame_id,
                ..self
            }
        } else {
            LoopStateView {
                frames_in_current_second: frames,
                fps_clock: clock,
                current_frame_id: frame_id,
                ..self
            }
        }
    }

    /// What is to be done about the window: nothing unless the wish has
    /// changed since it was last acted on.
    pub open spec fn fullscreen_action(self) -> Option<FullscreenAction> {
        if self.previous_fullscreen == self.fullscreen {
            None
        } else if self.fullscreen {
            Some(FullscreenAction::SwitchToFullscreen)
        } else {
            Some(FullscreenAction::SwitchToWindowed)
        }
    }
}

impl LoopState {
    /// The state of a loop that has not run yet, with the window not
    /// filling the screen: if it is to, the first frame makes the switch.
    pub fn initialise(fullscreen: bool) -> (state: LoopState)
        ensures
            state@ == (LoopStateView {
                fullscreen,
                previous_fullscreen: false,
                switched_from_fullscreen: false,
                mouse: Mouse::at_rest(),
                keys: Seq::empty(),
                fps_clock: 0,
                frames_in_current_second: 0,
                fps: 0,
                current_frame_id: 0,
            }),
    {
        LoopState {
            fullscreen,
            previous_fullscreen: false,
            switched_from_fullscreen: false,
            mouse: Mouse::new(),
            keys: Vec::new(),
            fps_clock: 0,
            frames_in_current_second: 0,
            fps: 0,
            current_frame_id: 0,
        }
    }

    /// Counts a frame that took `dt` milliseconds.
    pub fn update_fps(&mut self, dt: u64)
        ensures
            final(self)@ == old(self)@.after_frame(dt),
    {
        self.fps_clock = self.fps_clock.saturating_add(dt);
        self.frames_in_current_second = self.frames_in_current_second.wrapping_add(1);
        self.current_frame_id = self.current_frame_id.wrapping_add(1);
        if self.fps_clock > FPS_WINDOW_MS {
            self.fps = self.frames_in_current_second;
            self.frames_in_current_second = 1;
            self.fps_clock = 0;
        }
    }

    /// Forgets the clicks and the keys of the tick that has passed. Where
    /// the pointer is, and which of its buttons are held down, stays.
    pub fn reset_inputs(&mut self)
        ensures
            final(self)@ == (LoopStateView {
                mouse: Mouse { left_clicked: false, right_clicked: false, ..old(self)@.mouse },
                keys: Seq::empty(),
                ..old(self)@
            }),
    {
        self.mouse.left_clicked = false;
        self.mouse.right_clicked = false;
        self.keys.clear();
    }

    /// Tells what is to be done about the window, and takes note when it is
    /// switched back from filling the screen.
    pub fn fullscreen_action(&mut self) -> (action: Option<FullscreenAction>)
        ensures
            action == old(self)@.fullscreen_action(),
            final(self)@ == (LoopStateView {
                switched_from_fullscreen: old(self)@.switched_from_fullscreen || action == Some(
                    FullscreenAction::SwitchToWindowed,
                ),
                ..old(self)@
            }),
    {
        if self.previous_fullscreen != self.fullscreen {
            if self.fullscreen {
                Some(FullscreenAction::SwitchToFullscreen)
            } else {
                self.switched_from_fullscreen = true;
                Some(FullscreenAction::SwitchToWindowed)
            }
        } else {
            None
        }
    }
}

} // verus!
