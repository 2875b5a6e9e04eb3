use faraday_art::field::{compute_sequence, generate_field, texel_point};
use faraday_art::params::ComputeData;
use faraday_art::resources::{
    frame_commands, readback_layout, workgroup_counts, CanvasResources, GpuCommand, ReadbackLayout,
    Stage,
};
use faraday_art::session::FrameAction;
use faraday_art::viewport::COORD_ONE;

const ONE: i64 = COORD_ONE;

#[test]
fn workgroups_cover_the_frame() {
    assert_eq!(workgroup_counts((1024, 1000)), (64, 63));
    assert_eq!(workgroup_counts((17, 16)), (2, 1));
    assert_eq!(workgroup_counts((0, 1)), (0, 1));
    assert_eq!(workgroup_counts((u32::MAX, 15)), (268435456, 1));
}

#[test]
fn frame_commands_keep_stage_order() {
    let all = FrameAction { upload_params: true, run_compute: true, save_image: true };
    let cmds = frame_commands(all, (512, 512));
    let d = |stage| GpuCommand::Dispatch { stage, groups_x: 32, groups_y: 32 };
    assert_eq!(
        cmds,
        vec![
            GpuCommand::UploadParams,
            d(Stage::GenerateField),
            GpuCommand::ResetStats,
            d(Stage::MinMax),
            d(Stage::Recalibrate),
            d(Stage::Histogram),
            GpuCommand::Dispatch { stage: Stage::Cdf, groups_x: 1, groups_y: 1 },
            d(Stage::Equalize),
            GpuCommand::SaveImage,
        ]
    );
    let none = FrameAction { upload_params: false, run_compute: false, save_image: false };
    assert!(frame_commands(none, (512, 512)).is_empty());
    let save = FrameAction { upload_params: false, run_compute: false, save_image: true };
    assert_eq!(frame_commands(save, (8, 8)), vec![GpuCommand::SaveImage]);
}

#[test]
fn resize_replaces_canvas_and_bindings() {
    let mut r = CanvasResources::new((512, 512));
    assert!(!r.check_resize((512, 512)));
    assert_eq!(r.texture_id, 0);
    assert!(r.check_resize((1024, 1024)));
    assert_eq!(r.texture_size(), (1024, 1024));
    assert_eq!(r.texture_id, 1);
    assert_eq!(r.compute_bg_texture, 1);
    assert_eq!(r.render_bg_texture, 1);
    let params = ComputeData::default();
    let kernel = |x: i64, y: i64| (x / 1024) ^ (y / 1024);
    let (canvas, data) = compute_sequence(&params, r.texture_size(), 0, &kernel);
    assert_eq!(canvas.len(), 1024 * 1024);
    assert!(canvas.iter().all(|v| (0..=255).contains(v)));
    assert_eq!(data.histogram.counts.iter().sum::<usize>(), data.histogram.total_included);
    let run = FrameAction { upload_params: false, run_compute: true, save_image: false };
    assert_eq!(
        frame_commands(run, r.texture_size())[0],
        GpuCommand::Dispatch { stage: Stage::GenerateField, groups_x: 64, groups_y: 64 }
    );
}

#[test]
fn resize_identifiers_wrap() {
    let mut r = CanvasResources::new((1, 1));
    r.texture_id = u64::MAX;
    r.compute_bg_texture = u64::MAX;
    r.render_bg_texture = u64::MAX;
    r.resize((2, 2));
    assert_eq!(r.texture_id, 0);
    assert_eq!(r.compute_bg_texture, 0);
}

#[test]
fn readback_rows_are_tightly_packed() {
    assert_eq!(
        readback_layout((1024, 768)),
        Some(ReadbackLayout { bytes_per_row: 16384, rows_per_image: 768, buffer_size: 16384 * 768 })
    );
    assert_eq!(readback_layout((u32::MAX / 16 + 1, 1)), None);
}

#[test]
fn texels_map_onto_the_ranges() {
    let p = ComputeData::default();
    assert_eq!(texel_point(&p, (4, 2), 0, 0), (-2 * ONE, -5 * ONE / 4));
    assert_eq!(texel_point(&p, (4, 2), 2, 1), (-3 * ONE / 4, 0));
    assert_eq!(texel_point(&p, (3, 1), 1, 0), (-2 * ONE + 3579139413, -5 * ONE / 4));
}

#[test]
fn field_holds_kernel_values_row_by_row() {
    let p = ComputeData::default();
    let kernel = |x: i64, y: i64| x / ONE * 10 + y / ONE;
    let f = generate_field(&p, (4, 2), &kernel);
    assert_eq!(f.len(), 8);
    assert_eq!(f[0], kernel(-2 * ONE, -5 * ONE / 4));
    assert_eq!(f[6], kernel(-3 * ONE / 4, 0));
    assert_eq!(generate_field(&p, (0, 5), &kernel), Vec::<i64>::new());
}
