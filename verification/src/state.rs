//! The decisions the window's event handlers and render loop take on the render state.
//! The window performs what they decide (moving the camera, rebuilding the scene,
//! recording GPU work, keeping the render clock).
use crate::scene::SceneEnum;
use crate::structure::{MouseButton, MousePos, RenderData, RenderStatus, RendererType};
use vstd::prelude::*;

verus! {

/// The keys the application reacts to.
#[derive(PartialEq, Eq, Structural, Clone, Copy, Debug)]
pub enum Key {
    Escape,
    KeyH,
    Other,
}

/// What a key event asks for.
#[derive(PartialEq, Eq, Structural, Clone, Copy, Debug)]
pub enum KeyAction {
    Exit,
    ToggleGui,
    Nothing,
}

/// Escape pressed quits; H pressed shows or hides the menu; nothing else matters.
pub open spec fn spec_key_action(key: Key, pressed: bool) -> KeyAction {
    if key == Key::Escape && pressed {
        KeyAction::Exit
    } else if key == Key::KeyH && pressed {
        KeyAction::ToggleGui
    } else {
        KeyAction::Nothing
    }
}

pub fn handle_key(key: Key, pressed: bool) -> (r: KeyAction)
    ensures
        r == spec_key_action(key, pressed),
{
    if key == Key::Escape && pressed {
        KeyAction::Exit
    } else if key == Key::KeyH && pressed {
        KeyAction::ToggleGui
    } else {
        KeyAction::Nothing
    }
}

/// What a pointer move asks the camera to do; the movement is from `prev` to the new
/// position.
#[derive(PartialEq, Eq, Structural, Clone, Copy, Debug)]
pub enum MouseMove {
    Nothing,
    /// The middle button drags the focus point.
    Translate { prev: MousePos },
    /// The right button orbits the camera.
    Orbit { prev: MousePos },
}

/// The camera action of a move to `current` in state `rd`.
pub open spec fn spec_mouse_move(rd: RenderData) -> MouseMove {
    if rd.mouse_pressed && rd.mouse_prev_pos is Some {
        let prev = rd.mouse_prev_pos->Some_0;
        match rd.mouse_key {
            MouseButton::Middle => MouseMove::Translate { prev },
            MouseButton::Right => MouseMove::Orbit { prev },
            _ => MouseMove::Nothing,
        }
    } else {
        MouseMove::Nothing
    }
}

/// The state after a move to `current`: a drag that moves the camera restarts the
/// accumulation and remembers `current`; the first move of a press only remembers it.
pub open spec fn spec_after_mouse_move(rd: RenderData, current: MousePos) -> RenderData {
    if !rd.mouse_pressed {
        rd
    } else if rd.mouse_prev_pos is None {
        RenderData { mouse_prev_pos: Some(current), ..rd }
    } else if spec_mouse_move(rd) != MouseMove::Nothing {
        RenderData { frame_id: 0, image_dirty: true, mouse_prev_pos: Some(current), ..rd }
    } else {
        rd
    }
}

/// The decisions a button press or release takes on the render state.
pub open spec fn spec_after_mouse_input(
    rd: RenderData,
    pressed: bool,
    button: MouseButton,
    pointer_over_gui: bool,
) -> RenderData {
    if rd.render_status != RenderStatus::Render {
        rd
    } else if pressed {
        if !pointer_over_gui {
            RenderData { mouse_pressed: true, mouse_key: button, ..rd }
        } else {
            rd
        }
    } else if rd.mouse_pressed && rd.mouse_key == button {
        RenderData { mouse_pressed: false, mouse_prev_pos: None, ..rd }
    } else {
        rd
    }
}

impl RenderData {
    /// Handles a pointer move to `current`; returns what the camera should do. When the
    /// camera moves, the render clock is to be reset too.
    pub fn handle_mouse_moved(&mut self, current: MousePos) -> (r: MouseMove)
        ensures
            r == spec_mouse_move(*old(self)),
            *final(self) == spec_after_mouse_move(*old(self), current),
    {
        if self.mouse_pressed {
            match self.mouse_prev_pos {
                Some(prev) => {
                    let action = match self.mouse_key {
                        MouseButton::Middle => MouseMove::Translate { prev },
                        MouseButton::Right => MouseMove::Orbit { prev },
                        _ => MouseMove::Nothing,
                    };
                    if action != MouseMove::Nothing {
                        self.frame_id = 0;
                        self.image_dirty = true;
                        self.mouse_prev_pos = Some(current);
                    }
                    action
                },
                None => {
                    self.mouse_prev_pos = Some(current);
                    MouseMove::Nothing
                },
            }
        } else {
            MouseMove::Nothing
        }
    }

    /// Handles a press or release of `button` while rendering: a press outside the menu
    /// starts a drag with that button, the release of that button ends it.
    pub fn handle_mouse_input(&mut self, pressed: bool, button: MouseButton, pointer_over_gui: bool)
        ensures
            *final(self) == spec_after_mouse_input(*old(self), pressed, button, pointer_over_gui),
    {
        if self.render_status == RenderStatus::Render {
            if pressed {
                if !pointer_over_gui {
                    self.mouse_pressed = true;
                    self.mouse_key = button;
                }
            } else {
                if self.mouse_pressed && self.mouse_key == button {
                    self.mouse_pressed = false;
                    self.mouse_prev_pos = None;
                }
            }
        }
    }

    /// Handles a wheel event while rendering; only a wheel that reports pixels zooms.
    /// Returns whether the camera zooms (then the accumulation and the clock restart).
    pub fn handle_mouse_wheel(&mut self, pixel_delta: bool) -> (zoom: bool)
        ensures
            zoom == (old(self).render_status == RenderStatus::Render && pixel_delta),
            zoom ==> *final(self) == (RenderData { frame_id: 0, image_dirty: true, ..*old(self) }),
            !zoom ==> *final(self) == *old(self),
    {
        if self.render_status == RenderStatus::Render && pixel_delta {
            self.frame_id = 0;
            self.image_dirty = true;
            true
        } else {
            false
        }
    }
}

/// The work one update of the loop asks for.
#[derive(PartialEq, Eq, Structural, Clone, Copy, Debug)]
pub struct UpdatePlan {
    /// The scene to build and switch to (then the clock is reset).
    pub new_scene: Option<SceneEnum>,
    /// The samples per pixel to give the new scene's camera.
    pub samples_per_pixel: Option<u32>,
    /// Whether the wavefront renderer must be set up for the new scene.
    pub configure_wavefront: bool,
    /// Whether to save the rendered image.
    pub download: bool,
}

impl RenderData {
    /// Decides one update: a pending configuration switches to the chosen scene (with the
    /// chosen number of samples when it is not 0), resets the state and starts rendering;
    /// a pending download is taken.
    pub fn plan_update(&mut self) -> (r: UpdatePlan)
        ensures
            r.new_scene == (if old(self).update_config {
                Some(old(self).scene_config.scene_enum)
            } else {
                None::<SceneEnum>
            }),
            r.samples_per_pixel == (if old(self).update_config && old(self).scene_config.samples_per_pixel > 0 {
                Some(old(self).scene_config.samples_per_pixel)
            } else {
                None::<u32>
            }),
            r.configure_wavefront == (old(self).update_config
                && old(self).scene_config.renderer_type == RendererType::WFPT),
            r.download == old(self).download_image,
            *final(self) == (if old(self).update_config {
                RenderData {
                    render_status: RenderStatus::Render,
                    download_image: false,
                    ..RenderData::spec_reset(*old(self))
                }
            } else {
                RenderData { download_image: false, ..*old(self) }
            }),
    {
        let mut plan = UpdatePlan {
            new_scene: None,
            samples_per_pixel: None,
            configure_wavefront: false,
            download: false,
        };
        if self.update_config {
            plan.new_scene = Some(self.scene_config.scene_enum);
            if self.scene_config.samples_per_pixel > 0 {
                plan.samples_per_pixel = Some(self.scene_config.samples_per_pixel);
            }
            plan.configure_wavefront = match self.scene_config.renderer_type {
                RendererType::PT => false,
                RendererType::WFPT => true,
            };
            self.reset();
            self.render_status = RenderStatus::Render;
        }
        if self.download_image {
            self.download_image = false;
            plan.download = true;
        }
        plan
    }
}

/// The work one frame asks for.
#[derive(PartialEq, Eq, Structural, Clone, Copy, Debug)]
pub enum FramePlan {
    /// The surface is not ready: nothing is drawn.
    Skip,
    /// Nothing is rendered; only the menu is drawn (when it is shown).
    Idle,
    /// Render frame `frame_id` with `renderer`, clearing the accumulated image first when
    /// `clear_accum`, then draw the menu.
    Render { frame_id: u32, clear_accum: bool, renderer: RendererType },
}

impl RenderData {
    /// Decides one frame; a rendered frame takes the pending clear and counts one frame.
    pub fn plan_frame(&mut self, surface_configured: bool) -> (r: FramePlan)
        requires
            surface_configured && old(self).render_status == RenderStatus::Render ==> old(self).frame_id
                < u32::MAX,
        ensures
            !surface_configured ==> r == FramePlan::Skip && *final(self) == *old(self),
            surface_configured && old(self).render_status != RenderStatus::Render ==> r
                == FramePlan::Idle && *final(self) == *old(self),
            surface_configured && old(self).render_status == RenderStatus::Render ==> r
                == (FramePlan::Render {
                frame_id: old(self).frame_id,
                clear_accum: old(self).image_dirty,
                renderer: old(self).scene_config.renderer_type,
            }) && *final(self) == (RenderData {
                frame_id: (old(self).frame_id + 1) as u32,
                image_dirty: false,
                ..*old(self)
            }),
    {
        if !surface_configured {
            return FramePlan::Skip;
        }
        if self.render_status == RenderStatus::Render {
            let plan = FramePlan::Render {
                frame_id: self.frame_id,
                clear_accum: self.image_dirty,
                renderer: self.scene_config.renderer_type,
            };
            self.image_dirty = false;
            self.frame_id = self.frame_id + 1;
            plan
        } else {
            FramePlan::Idle
        }
    }
}


/// A drag that moves the camera makes the render start over: the next planned frame
/// is frame 0 and clears the accumulated samples.
pub proof fn law_camera_move_restarts_render(rd: RenderData, current: MousePos)
    requires
        spec_mouse_move(rd) != MouseMove::Nothing,
    ensures
        ({
            let after = spec_after_mouse_move(rd, current);
            &&& after.frame_id == 0
            &&& after.image_dirty
            &&& after.mouse_prev_pos == Some(current)
            &&& after.render_status == rd.render_status
        }),
{
}

/// While rendering, pressing a button outside the menu and releasing the same button
/// ends the drag: nothing stays pressed and no position is remembered.
pub proof fn law_press_then_release_ends_drag(rd: RenderData, button: MouseButton, over_gui: bool)
    requires
        rd.render_status == RenderStatus::Render,
    ensures
        ({
            let pressed = spec_after_mouse_input(rd, true, button, false);
            let released = spec_after_mouse_input(pressed, false, button, over_gui);
            &&& pressed.mouse_pressed
            &&& !released.mouse_pressed
            &&& released.mouse_prev_pos == None::<MousePos>
            &&& released.frame_id == rd.frame_id
        }),
{
}


/// Only pressing a key asks for something: Escape quits, H shows or hides the menu, and a
/// released key, or any other key, does nothing. So a tap of H (a press, then a release)
/// toggles the menu once.
pub proof fn law_only_presses_act(key: Key, pressed: bool)
    ensures
        !pressed ==> spec_key_action(key, pressed) == KeyAction::Nothing,
        spec_key_action(key, pressed) == KeyAction::Exit <==> (key == Key::Escape && pressed),
        spec_key_action(key, pressed) == KeyAction::ToggleGui <==> (key == Key::KeyH && pressed),
        (key != Key::Escape && key != Key::KeyH) ==> spec_key_action(key, pressed) == KeyAction::Nothing,
{
}

} // verus!
