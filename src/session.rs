//! The interactive session: how input events move the viewport and edit the
//! parameters, and which GPU work each frame owes.
//!
//! Mouse positions and speeds are fixed-point like coordinates. A change
//! that would leave an integer type or make a range invalid is refused and
//! leaves the session as it was.

use crate::params::{default_compute_data, is_valid_range, valid_range, ComputeData};
use crate::viewport::{
    div_floor, fit_pair, floor_div, get_shift_speed, in_i128, in_i64, narrow, pair_int, shift,
    shifted, zoom_relative, zoom_relative_spec, Factor, COORD_ONE,
};
use vstd::prelude::*;

verus! {

/// A key press, as far as the session cares.
#[derive(Clone, Copy, Debug, PartialEq, Eq, Structural)]
pub enum KeyCommand {
    Left,
    Right,
    Up,
    Down,
    ZoomIn,
    ZoomOut,
    Quit,
    Save,
    Recompute,
    Other,
}

/// Interaction state.
#[derive(Clone, Copy, Debug)]
pub struct State {
    /// Recompute the field on every frame.
    pub continuous_compute: bool,
    /// Mouse position relative to the window (`0` to `COORD_ONE` on each axis).
    pub mouse_pos: (i64, i64),
    /// Mouse position at the previous drag step.
    pub prev_drag_pos: (i64, i64),
    /// A mouse button is held.
    pub dragging: bool,
    /// Zoom factor change per wheel unit.
    pub zoom_speed: i64,
    /// A pan step is the range width divided by this.
    pub shift_speed: u32,
    /// An image export is requested.
    pub save_image: bool,
}

/// Not dragging, no export, zoom speed 0.001, pan step a fiftieth of the
/// range, mouse at the origin.
pub open spec fn default_state() -> State {
    State {
        continuous_compute: false,
        mouse_pos: (0, 0),
        prev_drag_pos: (0, 0),
        dragging: false,
        zoom_speed: 4294967,
        shift_speed: 50,
        save_image: false,
    }
}

impl Default for State {
    fn default() -> (r: Self)
        ensures
            r == default_state(),
    {
        State {
            continuous_compute: false,
            mouse_pos: (0, 0),
            prev_drag_pos: (0, 0),
            dragging: false,
            zoom_speed: 4294967,
            shift_speed: 50,
            save_image: false,
        }
    }
}

/// Session state: interaction state, kernel parameters, and the two dirty
/// flags.
#[derive(Clone, Copy, Debug)]
pub struct Session {
    pub state: State,
    pub compute_data: ComputeData,
    /// The parameter record changed since it was last copied to the GPU.
    pub update_compute_data_buffer: bool,
    /// The field must be recomputed.
    pub recompute_texture: bool,
}

/// GPU work owed by one frame, in this order: copy the parameters, run the
/// compute sequence, export the image.
#[derive(Clone, Copy, Debug, PartialEq, Eq, Structural)]
pub struct FrameAction {
    pub upload_params: bool,
    pub run_compute: bool,
    pub save_image: bool,
}

/// `s` with new ranges when both are valid, the parameters marked dirty and
/// a recompute requested; `s` itself otherwise.
pub open spec fn with_viewport(s: Session, c: Option<((i64, i64), (i64, i64))>) -> Session {
    match c {
        Some((x, y)) => if valid_range(x) && valid_range(y) {
            Session {
                compute_data: ComputeData { x_range: x, y_range: y, ..s.compute_data },
                update_compute_data_buffer: true,
                recompute_texture: true,
                ..s
            }
        } else {
            s
        },
        None => s,
    }
}

pub open spec fn shift_speed_spec(r: (i64, i64), factor: u32) -> Option<i64> {
    if factor > 0 && in_i64(floor_div(r.1 - r.0, factor as int)) {
        Some(floor_div(r.1 - r.0, factor as int) as i64)
    } else {
        None
    }
}

/// The range moved one pan step up (`forward`) or down.
pub open spec fn pan_spec(r: (i64, i64), factor: u32, forward: bool) -> Option<(i64, i64)> {
    match shift_speed_spec(r, factor) {
        Some(v) => if forward {
            fit_pair(shifted(pair_int(r), v as int))
        } else if v == i64::MIN {
            None
        } else {
            fit_pair(shifted(pair_int(r), -v))
        },
        None => None,
    }
}

pub open spec fn pan_x(s: Session, forward: bool) -> Option<((i64, i64), (i64, i64))> {
    match pan_spec(s.compute_data.x_range, s.state.shift_speed, forward) {
        Some(x) => Some((x, s.compute_data.y_range)),
        None => None,
    }
}

pub open spec fn pan_y(s: Session, forward: bool) -> Option<((i64, i64), (i64, i64))> {
    match pan_spec(s.compute_data.y_range, s.state.shift_speed, forward) {
        Some(y) => Some((s.compute_data.x_range, y)),
        None => None,
    }
}

/// A zoom by `num / COORD_ONE` around the relative point `focus`.
pub open spec fn zoom_at(s: Session, num: int, focus: (i64, i64)) -> Option<
    ((i64, i64), (i64, i64)),
> {
    if in_i64(num) {
        zoom_relative_spec(
            s.compute_data.x_range,
            s.compute_data.y_range,
            Factor { num: num as i64, den: COORD_ONE },
            focus,
        )
    } else {
        None
    }
}

/// A zoom key: factor `1 -+ 10 * zoom_speed` around the centre.
pub open spec fn zoom_key(s: Session, zoom_in: bool) -> Option<((i64, i64), (i64, i64))> {
    let step = 10 * s.state.zoom_speed;
    let num = if zoom_in {
        COORD_ONE - step
    } else {
        COORD_ONE + step
    };
    zoom_at(s, num, ((COORD_ONE / 2) as i64, (COORD_ONE / 2) as i64))
}

pub open spec fn key_effect(s: Session, key: KeyCommand) -> Session {
    match key {
        KeyCommand::Left => with_viewport(s, pan_x(s, false)),
        KeyCommand::Right => with_viewport(s, pan_x(s, true)),
        KeyCommand::Up => with_viewport(s, pan_y(s, true)),
        KeyCommand::Down => with_viewport(s, pan_y(s, false)),
        KeyCommand::ZoomIn => with_viewport(s, zoom_key(s, true)),
        KeyCommand::ZoomOut => with_viewport(s, zoom_key(s, false)),
        KeyCommand::Save => Session { state: State { save_image: true, ..s.state }, ..s },
        KeyCommand::Recompute => Session { recompute_texture: true, ..s },
        _ => s,
    }
}

/// Zoom factor numerator (over `COORD_ONE`) for a wheel turn of `delta`.
pub open spec fn wheel_factor(s: Session, delta: i64) -> int {
    COORD_ONE + floor_div(delta * s.state.zoom_speed, COORD_ONE as int)
}

/// Position `p` on an axis of length `w` centred on zero, made relative:
/// `(p + w / 2) / w` in fixed point, rounded down.
pub open spec fn normalized(p: int, w: int) -> int {
    floor_div((2 * p + w) * COORD_ONE, 2 * w)
}

/// The pan offset of a drag by `d` (relative) across a range of width `w`:
/// `-d * w`, rounded down.
pub open spec fn drag_offset(d: int, w: int) -> Option<i64> {
    if in_i128(-d * w) && in_i64(floor_div(-d * w, COORD_ONE as int)) {
        Some(floor_div(-d * w, COORD_ONE as int) as i64)
    } else {
        None
    }
}

pub open spec fn drag_candidate(s: Session, m: (i64, i64)) -> Option<((i64, i64), (i64, i64))> {
    let x = s.compute_data.x_range;
    let y = s.compute_data.y_range;
    match (
        drag_offset(m.0 - s.state.prev_drag_pos.0, x.1 - x.0),
        drag_offset(m.1 - s.state.prev_drag_pos.1, y.1 - y.0),
    ) {
        (Some(a), Some(b)) => match (
            fit_pair(shifted(pair_int(x), a as int)),
            fit_pair(shifted(pair_int(y), b as int)),
        ) {
            (Some(nx), Some(ny)) => Some((nx, ny)),
            _ => None,
        },
        _ => None,
    }
}

/// The mouse moved to `pos` in a window of `size`, both centred on zero:
/// record the relative position and, while dragging, pan the viewport by
/// the relative movement times the range widths.
pub open spec fn mouse_moved_spec(s: Session, pos: (i64, i64), size: (i64, i64)) -> Session {
    let nx = normalized(pos.0 as int, size.0 as int);
    let ny = normalized(pos.1 as int, size.1 as int);
    if size.0 <= 0 || size.1 <= 0 || !in_i64(nx) || !in_i64(ny) {
        s
    } else {
        let m = (nx as i64, ny as i64);
        let s1 = Session { state: State { mouse_pos: m, ..s.state }, ..s };
        if !s.state.dragging {
            s1
        } else {
            let s2 = with_viewport(s1, drag_candidate(s1, m));
            Session { state: State { prev_drag_pos: m, ..s2.state }, ..s2 }
        }
    }
}

/// The work owed by a frame of `s`.
pub open spec fn plan_spec(s: Session) -> FrameAction {
    let run = s.recompute_texture || s.state.continuous_compute;
    FrameAction {
        upload_params: run && s.update_compute_data_buffer,
        run_compute: run,
        save_image: s.state.save_image,
    }
}

fn pan_candidate(r: (i64, i64), factor: u32, forward: bool) -> (c: Option<(i64, i64)>)
    ensures
        c == pan_spec(r, factor, forward),
{
    match get_shift_speed(r, factor) {
        Some(v) => if forward {
            shift(r, v)
        } else if v == i64::MIN {
            None
        } else {
            shift(r, -v)
        },
        None => None,
    }
}

fn relative_drag(d: i128, w: i128) -> (r: Option<i64>)
    requires
        -0x1_0000_0000_0000_0000 < d < 0x1_0000_0000_0000_0000,
        -0x1_0000_0000_0000_0000 < w < 0x1_0000_0000_0000_0000,
    ensures
        r == drag_offset(d as int, w as int),
{
    if d == i128::MIN {
        return None;
    }
    match (-d).checked_mul(w) {
        Some(p) => {
            if p == i128::MIN {
                return None;
            }
            narrow(div_floor(p, COORD_ONE as i128))
        },
        None => None,
    }
}

fn normalize(p: i64, w: i64) -> (r: Option<i64>)
    requires
        w > 0,
    ensures
        r == (if in_i64(normalized(p as int, w as int)) {
            Some(normalized(p as int, w as int) as i64)
        } else {
            None
        }),
{
    let t: i128 = 2 * (p as i128) + w as i128;
    let ghost ti = t as int;
    assert(-0x4_0000_0000_0000_0000_0000_0000 <= ti * 0x1_0000_0000 <= 0x4_0000_0000_0000_0000_0000_0000)
        by (nonlinear_arith)
        requires
            -0x4_0000_0000_0000_0000 <= ti <= 0x4_0000_0000_0000_0000,
    ;
    narrow(div_floor(t * (COORD_ONE as i128), 2 * (w as i128)))
}

impl Session {
    /// A fresh session: default parameters, nothing to upload, one compute
    /// owed.
    pub fn new() -> (r: Session)
        ensures
            r.wf(),
            r.state == default_state(),
            r.compute_data == default_compute_data(),
            !r.update_compute_data_buffer,
            r.recompute_texture,
    {
        Session {
            state: State::default(),
            compute_data: ComputeData::default(),
            update_compute_data_buffer: false,
            recompute_texture: true,
        }
    }

    /// The viewport is valid.
    pub open spec fn wf(&self) -> bool {
        self.compute_data.wf()
    }

    fn apply_viewport(&mut self, c: Option<((i64, i64), (i64, i64))>)
        requires
            old(self).wf(),
        ensures
            *final(self) == with_viewport(*old(self), c),
            final(self).wf(),
    {
        if let Some((x, y)) = c {
            if is_valid_range(x) && is_valid_range(y) {
                self.compute_data.update_x_range(x);
                self.compute_data.update_y_range(y);
                self.update_compute_data_buffer = true;
                self.recompute_texture = true;
            }
        }
    }

    /// A key press. Arrows pan by one step, zoom keys zoom around the
    /// centre, `Save` requests an export, `Recompute` a recompute. Returns
    /// whether the key asks to quit.
    pub fn key_pressed(&mut self, key: KeyCommand) -> (quit: bool)
        requires
            old(self).wf(),
        ensures
            quit == (key == KeyCommand::Quit),
            *final(self) == key_effect(*old(self), key),
            final(self).wf(),
    {
        match key {
            KeyCommand::Left => {
                let c = match pan_candidate(self.compute_data.x_range, self.state.shift_speed, false) {
                    Some(x) => Some((x, self.compute_data.y_range)),
                    None => None,
                };
                self.apply_viewport(c);
                false
            },
            KeyCommand::Right => {
                let c = match pan_candidate(self.compute_data.x_range, self.state.shift_speed, true) {
                    Some(x) => Some((x, self.compute_data.y_range)),
                    None => None,
                };
                self.apply_viewport(c);
                false
            },
            KeyCommand::Up => {
                let c = match pan_candidate(self.compute_data.y_range, self.state.shift_speed, true) {
                    Some(y) => Some((self.compute_data.x_range, y)),
                    None => None,
                };
                self.apply_viewport(c);
                false
            },
            KeyCommand::Down => {
                let c = match pan_candidate(self.compute_data.y_range, self.state.shift_speed, false) {
                    Some(y) => Some((self.compute_data.x_range, y)),
                    None => None,
                };
                self.apply_viewport(c);
                false
            },
            KeyCommand::ZoomIn => {
                let step: i128 = 10 * (self.state.zoom_speed as i128);
                let c = self.zoom_candidate(COORD_ONE as i128 - step, (COORD_ONE / 2, COORD_ONE / 2));
                self.apply_viewport(c);
                false
            },
            KeyCommand::ZoomOut => {
                let step: i128 = 10 * (self.state.zoom_speed as i128);
                let c = self.zoom_candidate(COORD_ONE as i128 + step, (COORD_ONE / 2, COORD_ONE / 2));
                self.apply_viewport(c);
                false
            },
            KeyCommand::Save => {
                self.state.save_image = true;
                false
            },
            KeyCommand::Recompute => {
                self.recompute_texture = true;
                false
            },
            KeyCommand::Quit => true,
            KeyCommand::Other => false,
        }
    }

    fn zoom_candidate(&self, num: i128, focus: (i64, i64)) -> (c: Option<((i64, i64), (i64, i64))>)
        ensures
            c == zoom_at(*self, num as int, focus),
    {
        match narrow(num) {
            Some(n) => zoom_relative(
                self.compute_data.x_range,
                self.compute_data.y_range,
                Factor { num: n, den: COORD_ONE },
                focus,
            ),
            None => None,
        }
    }

    /// A wheel turn of `delta` units (fixed-point): zoom by
    /// `1 + delta * zoom_speed` around the mouse.
    pub fn mouse_wheel(&mut self, delta: i64)
        requires
            old(self).wf(),
        ensures
            *final(self) == with_viewport(
                *old(self),
                zoom_at(*old(self), wheel_factor(*old(self), delta), old(self).state.mouse_pos),
            ),
            final(self).wf(),
    {
        let ghost di = delta as int;
        let ghost zi = self.state.zoom_speed as int;
        assert(-0x4000_0000_0000_0000_0000_0000_0000_0000 <= di * zi
            <= 0x4000_0000_0000_0000_0000_0000_0000_0000) by (nonlinear_arith)
            requires
                -0x8000_0000_0000_0000 <= di <= 0x7fff_ffff_ffff_ffff,
                -0x8000_0000_0000_0000 <= zi <= 0x7fff_ffff_ffff_ffff,
        ;
        let p: i128 = delta as i128 * self.state.zoom_speed as i128;
        let q = div_floor(p, COORD_ONE as i128);
        assert(-0x4000_0000_0000_0000_0000_0000 <= q <= 0x4000_0000_0000_0000_0000_0000) by {
            let pi = p as int;
            assert(-0x4000_0000_0000_0000_0000_0000 <= pi / 0x1_0000_0000
                <= 0x4000_0000_0000_0000_0000_0000) by (nonlinear_arith)
                requires
                    -0x4000_0000_0000_0000_0000_0000_0000_0000 <= pi
                        <= 0x4000_0000_0000_0000_0000_0000_0000_0000,
            ;
        }
        let c = self.zoom_candidate(COORD_ONE as i128 + q, self.state.mouse_pos);
        self.apply_viewport(c);
    }

    /// The mouse moved to `pos` in a window of `size` (both fixed-point,
    /// centred on zero). Ignored when the window has no area.
    pub fn mouse_moved(&mut self, pos: (i64, i64), size: (i64, i64))
        requires
            old(self).wf(),
        ensures
            *final(self) == mouse_moved_spec(*old(self), pos, size),
            final(self).wf(),
    {
        if size.0 <= 0 || size.1 <= 0 {
            return;
        }
        let (nx, ny) = match (normalize(pos.0, size.0), normalize(pos.1, size.1)) {
            (Some(a), Some(b)) => (a, b),
            _ => return,
        };
        self.state.mouse_pos = (nx, ny);
        if self.state.dragging {
            let x = self.compute_data.x_range;
            let y = self.compute_data.y_range;
            let prev = self.state.prev_drag_pos;
            let c = match (
                relative_drag(nx as i128 - prev.0 as i128, x.1 as i128 - x.0 as i128),
                relative_drag(ny as i128 - prev.1 as i128, y.1 as i128 - y.0 as i128),
            ) {
                (Some(a), Some(b)) => match (shift(x, a), shift(y, b)) {
                    (Some(new_x), Some(new_y)) => Some((new_x, new_y)),
                    _ => None,
                },
                _ => None,
            };
            self.apply_viewport(c);
            self.state.prev_drag_pos = (nx, ny);
        }
    }

    /// A mouse button went down: a drag starts at the mouse position.
    pub fn mouse_pressed(&mut self)
        ensures
            *final(self) == (Session {
                state: State { dragging: true, prev_drag_pos: old(self).state.mouse_pos, ..old(self).state },
                ..*old(self)
            }),
    {
        self.state.dragging = true;
        self.state.prev_drag_pos = self.state.mouse_pos;
    }

    /// A mouse button went up: the drag ends.
    pub fn mouse_released(&mut self)
        ensures
            *final(self) == (Session { state: State { dragging: false, ..old(self).state }, ..*old(self) }),
    {
        self.state.dragging = false;
    }

    /// The output size changed: the canvas is rebuilt elsewhere, and the
    /// field must be recomputed.
    pub fn resized(&mut self)
        ensures
            *final(self) == (Session { recompute_texture: true, ..*old(self) }),
    {
        self.recompute_texture = true;
    }

    /// Sets the iteration limit; a change marks the parameters dirty and
    /// requests a recompute.
    pub fn set_max_iter(&mut self, max_iter: u32)
        ensures
            *final(self) == (if max_iter == old(self).compute_data.max_iter {
                *old(self)
            } else {
                Session {
                    compute_data: ComputeData { max_iter, ..old(self).compute_data },
                    update_compute_data_buffer: true,
                    recompute_texture: true,
                    ..*old(self)
                }
            }),
    {
        if max_iter != self.compute_data.max_iter {
            self.compute_data.max_iter = max_iter;
            self.update_compute_data_buffer = true;
            self.recompute_texture = true;
        }
    }

    /// Sets the step size; a change marks the parameters dirty and
    /// requests a recompute.
    pub fn set_dt(&mut self, dt: i64)
        ensures
            *final(self) == (if dt == old(self).compute_data.dt {
                *old(self)
            } else {
                Session {
                    compute_data: ComputeData { dt, ..old(self).compute_data },
                    update_compute_data_buffer: true,
                    recompute_texture: true,
                    ..*old(self)
                }
            }),
    {
        if dt != self.compute_data.dt {
            self.compute_data.dt = dt;
            self.update_compute_data_buffer = true;
            self.recompute_texture = true;
        }
    }

    /// Sets the coupling constant; a change marks the parameters dirty and
    /// requests a recompute.
    pub fn set_mu(&mut self, mu: i64)
        ensures
            *final(self) == (if mu == old(self).compute_data.mu {
                *old(self)
            } else {
                Session {
                    compute_data: ComputeData { mu, ..old(self).compute_data },
                    update_compute_data_buffer: true,
                    recompute_texture: true,
                    ..*old(self)
                }
            }),
    {
        if mu != self.compute_data.mu {
            self.compute_data.mu = mu;
            self.update_compute_data_buffer = true;
            self.recompute_texture = true;
        }
    }

    /// An explicit request to recompute the field.
    pub fn request_recompute(&mut self)
        ensures
            *final(self) == (Session { recompute_texture: true, ..*old(self) }),
    {
        self.recompute_texture = true;
    }

    /// An explicit request to export the current image.
    pub fn request_save(&mut self)
        ensures
            *final(self) == (Session { state: State { save_image: true, ..old(self).state }, ..*old(self) }),
    {
        self.state.save_image = true;
    }

    /// The work owed by the coming frame: the compute sequence runs when a
    /// recompute is requested or in continuous mode, preceded by a copy of
    /// the parameters when they are dirty.
    pub fn plan_frame(&self) -> (a: FrameAction)
        ensures
            a == plan_spec(*self),
    {
        let run = self.recompute_texture || self.state.continuous_compute;
        FrameAction {
            upload_params: run && self.update_compute_data_buffer,
            run_compute: run,
            save_image: self.state.save_image,
        }
    }

    /// The work of `action` has been enqueued: clear exactly the flags that
    /// it covered.
    pub fn frame_done(&mut self, action: FrameAction)
        ensures
            final(self).update_compute_data_buffer == (old(self).update_compute_data_buffer
                && !action.upload_params),
            final(self).recompute_texture == (old(self).recompute_texture && !action.run_compute),
            final(self).state == (State {
                save_image: old(self).state.save_image && !action.save_image,
                ..old(self).state
            }),
            final(self).compute_data == old(self).compute_data,
    {
        if action.upload_params {
            self.update_compute_data_buffer = false;
        }
        if action.run_compute {
            self.recompute_texture = false;
        }
        if action.save_image {
            self.state.save_image = false;
        }
    }
}

} // verus!
