//! What the GPU side owes, decided on plain values: the ordered commands of
//! a frame, workgroup counts, which canvas each binding set refers to, and
//! the layout of an image readback.

use crate::session::{plan_spec, FrameAction, Session};
use vstd::prelude::*;

verus! {

/// Side of a square compute workgroup, in texels.
pub const WORKGROUP_SIZE: u32 = 16;

/// Channels per texel (RGBA).
pub const NUM_CHANNELS: u32 = 4;

/// Bytes per channel (32-bit floats on the GPU).
pub const BYTES_PER_CHANNEL: u32 = 4;

/// Bytes per texel.
pub const BYTES_PER_PIXEL: u32 = 16;

/// A compute stage of the sequence.
#[derive(Clone, Copy, Debug, PartialEq, Eq, Structural)]
pub enum Stage {
    GenerateField,
    MinMax,
    Recalibrate,
    Histogram,
    Cdf,
    Equalize,
}

/// One step of a frame's GPU work.
#[derive(Clone, Copy, Debug, PartialEq, Eq, Structural)]
pub enum GpuCommand {
    /// Copy the parameter record into the uniform buffer.
    UploadParams,
    /// Reset the stats and histogram record to its identity.
    ResetStats,
    /// Dispatch a stage over a grid of workgroups.
    Dispatch { stage: Stage, groups_x: u32, groups_y: u32 },
    /// Read the canvas back and write it to an image file.
    SaveImage,
}

pub open spec fn ceil_div(a: int, b: int) -> int {
    (a + b - 1) / b
}

/// Workgroups needed to cover `n` texels.
pub fn workgroups(n: u32) -> (r: u32)
    ensures
        r == ceil_div(n as int, WORKGROUP_SIZE as int),
{
    n / WORKGROUP_SIZE + if n % WORKGROUP_SIZE != 0 {
        1
    } else {
        0
    }
}

/// Workgroups per axis needed to cover a frame of `frame_size` texels.
pub fn workgroup_counts(frame_size: (u32, u32)) -> (r: (u32, u32))
    ensures
        r.0 == ceil_div(frame_size.0 as int, WORKGROUP_SIZE as int),
        r.1 == ceil_div(frame_size.1 as int, WORKGROUP_SIZE as int),
{
    (workgroups(frame_size.0), workgroups(frame_size.1))
}

pub open spec fn dispatch_spec(stage: Stage, frame_size: (u32, u32)) -> GpuCommand {
    GpuCommand::Dispatch {
        stage,
        groups_x: ceil_div(frame_size.0 as int, WORKGROUP_SIZE as int) as u32,
        groups_y: ceil_div(frame_size.1 as int, WORKGROUP_SIZE as int) as u32,
    }
}

/// The compute sequence: generation, a reset of the shared record, then
/// the post-processing stages in their dependency order, the CDF on a
/// single workgroup.
pub open spec fn compute_commands(frame_size: (u32, u32)) -> Seq<GpuCommand> {
    seq![
        dispatch_spec(Stage::GenerateField, frame_size),
        GpuCommand::ResetStats,
        dispatch_spec(Stage::MinMax, frame_size),
        dispatch_spec(Stage::Recalibrate, frame_size),
        dispatch_spec(Stage::Histogram, frame_size),
        GpuCommand::Dispatch { stage: Stage::Cdf, groups_x: 1, groups_y: 1 },
        dispatch_spec(Stage::Equalize, frame_size),
    ]
}

/// The GPU commands of a frame, in order: the parameter copy ahead of the
/// compute sequence that reads it, then the export.
pub open spec fn frame_commands_spec(action: FrameAction, frame_size: (u32, u32)) -> Seq<GpuCommand> {
    (if action.upload_params {
        seq![GpuCommand::UploadParams]
    } else {
        Seq::empty()
    }) + (if action.run_compute {
        compute_commands(frame_size)
    } else {
        Seq::empty()
    }) + (if action.save_image {
        seq![GpuCommand::SaveImage]
    } else {
        Seq::empty()
    })
}

/// The GPU commands that carry out `action` on a frame of `frame_size`.
pub fn frame_commands(action: FrameAction, frame_size: (u32, u32)) -> (r: Vec<GpuCommand>)
    ensures
        r@ == frame_commands_spec(action, frame_size),
{
    let mut r: Vec<GpuCommand> = Vec::new();
    if action.upload_params {
        r.push(GpuCommand::UploadParams);
    }
    let ghost first = r@;
    if action.run_compute {
        let (gx, gy) = workgroup_counts(frame_size);
        r.push(GpuCommand::Dispatch { stage: Stage::GenerateField, groups_x: gx, groups_y: gy });
        r.push(GpuCommand::ResetStats);
        r.push(GpuCommand::Dispatch { stage: Stage::MinMax, groups_x: gx, groups_y: gy });
        r.push(GpuCommand::Dispatch { stage: Stage::Recalibrate, groups_x: gx, groups_y: gy });
        r.push(GpuCommand::Dispatch { stage: Stage::Histogram, groups_x: gx, groups_y: gy });
        r.push(GpuCommand::Dispatch { stage: Stage::Cdf, groups_x: 1, groups_y: 1 });
        r.push(GpuCommand::Dispatch { stage: Stage::Equalize, groups_x: gx, groups_y: gy });
        assert(r@ =~= first + compute_commands(frame_size));
    } else {
        assert(r@ =~= first + Seq::empty());
    }
    let ghost second = r@;
    if action.save_image {
        r.push(GpuCommand::SaveImage);
        assert(r@ =~= second + seq![GpuCommand::SaveImage]);
    } else {
        assert(r@ =~= second + Seq::empty());
    }
    assert(r@ =~= frame_commands_spec(action, frame_size));
    r
}

/// When a frame runs the compute sequence while the parameters are dirty,
/// its first command copies them and the second generates the field: the
/// kernel never reads a stale parameter record. The sequence runs on every
/// frame in continuous mode.
pub proof fn lemma_upload_precedes_generation(s: Session, frame_size: (u32, u32))
    ensures
        s.state.continuous_compute ==> plan_spec(s).run_compute,
        s.update_compute_data_buffer && plan_spec(s).run_compute ==> {
            let cmds = frame_commands_spec(plan_spec(s), frame_size);
            &&& cmds[0] == GpuCommand::UploadParams
            &&& cmds[1] == dispatch_spec(Stage::GenerateField, frame_size)
        },
{
    let a = plan_spec(s);
    if s.update_compute_data_buffer && a.run_compute {
        let cmds = frame_commands_spec(a, frame_size);
        let head = seq![GpuCommand::UploadParams] + compute_commands(frame_size);
        assert(cmds[0] == head[0] && cmds[1] == head[1]);
    }
}

/// Which canvas texture is current, and which texture each binding set was
/// built from. Identifiers are fresh per texture.
#[derive(Clone, Copy, Debug)]
pub struct CanvasResources {
    pub texture_id: u64,
    pub texture_size: (u32, u32),
    pub compute_bg_texture: u64,
    pub render_bg_texture: u64,
}

impl CanvasResources {
    /// Every binding set refers to the current texture.
    pub open spec fn wf(&self) -> bool {
        self.compute_bg_texture == self.texture_id && self.render_bg_texture == self.texture_id
    }

    /// The first canvas, of `size`, with its binding sets.
    pub fn new(size: (u32, u32)) -> (r: CanvasResources)
        ensures
            r.wf(),
            r.texture_size == size,
            r.texture_id == 0,
    {
        CanvasResources { texture_id: 0, texture_size: size, compute_bg_texture: 0, render_bg_texture: 0 }
    }

    /// The size of the current canvas.
    pub fn texture_size(&self) -> (r: (u32, u32))
        ensures
            r == self.texture_size,
    {
        self.texture_size
    }

    /// Replaces the canvas by a new texture of `new_size` and rebuilds both
    /// binding sets on it, in one step.
    pub fn resize(&mut self, new_size: (u32, u32))
        ensures
            final(self).wf(),
            final(self).texture_size == new_size,
            final(self).texture_id != old(self).texture_id,
            final(self).texture_id == (if old(self).texture_id == u64::MAX {
                0
            } else {
                old(self).texture_id + 1
            }),
    {
        let id = if self.texture_id == u64::MAX {
            0
        } else {
            self.texture_id + 1
        };
        *self = CanvasResources {
            texture_id: id,
            texture_size: new_size,
            compute_bg_texture: id,
            render_bg_texture: id,
        };
    }

    /// Rebuilds the canvas when `new_size` differs from its size; returns
    /// whether it did.
    pub fn check_resize(&mut self, new_size: (u32, u32)) -> (resized: bool)
        requires
            old(self).wf(),
        ensures
            resized == (new_size != old(self).texture_size),
            final(self).wf(),
            final(self).texture_size == new_size,
            !resized ==> *final(self) == *old(self),
            resized ==> final(self).texture_id != old(self).texture_id,
    {
        if self.texture_size.0 != new_size.0 || self.texture_size.1 != new_size.1 {
            self.resize(new_size);
            true
        } else {
            false
        }
    }
}

/// Row pitch, row count and total size of a readback buffer for a canvas.
#[derive(Clone, Copy, Debug, PartialEq, Eq, Structural)]
pub struct ReadbackLayout {
    pub bytes_per_row: u32,
    pub rows_per_image: u32,
    pub buffer_size: u64,
}

/// The readback layout for a canvas of `size`: rows of `BYTES_PER_PIXEL`
/// bytes per texel, tightly packed. `None` when a row does not fit in
/// `u32` bytes.
pub fn readback_layout(size: (u32, u32)) -> (r: Option<ReadbackLayout>)
    ensures
        r == (if BYTES_PER_PIXEL * size.0 <= u32::MAX {
            Some(
                ReadbackLayout {
                    bytes_per_row: (BYTES_PER_PIXEL * size.0) as u32,
                    rows_per_image: size.1,
                    buffer_size: (BYTES_PER_PIXEL * size.0 * size.1) as u64,
                },
            )
        } else {
            None
        }),
{
    if size.0 > u32::MAX / BYTES_PER_PIXEL {
        return None;
    }
    let row: u32 = BYTES_PER_PIXEL * size.0;
    let ghost ri = row as int;
    let ghost hi = size.1 as int;
    assert(ri * hi <= u64::MAX) by (nonlinear_arith)
        requires
            0 <= ri <= u32::MAX,
            0 <= hi <= u32::MAX,
    ;
    let total: u64 = row as u64 * size.1 as u64;
    Some(ReadbackLayout { bytes_per_row: row, rows_per_image: size.1, buffer_size: total })
}

} // verus!
