use raytracing::gui::sample_progress;
use raytracing::print_texture::{padded_bytes_per_row, picture_from_copy, picture_png, staging_buffer_size};
use raytracing::scene::{accum_buffer_size, SceneEnum};
use raytracing::state::{handle_key, FramePlan, Key, KeyAction, MouseMove};
use raytracing::structure::{
    MouseButton, MousePos, RenderData, RenderStatus, RendererType, SamplingStrategy, SceneConfig,
    SceneUniforms,
};
use raytracing::wfpt::{plan_wavefront, queue_header, QUEUE_BUFFER_SIZE, RAYPOOL_BUFFER_SIZE};

#[test]
fn scene_uniforms_from_scene_zeroes_settings() {
    let u = SceneUniforms::from_scene(7, -1);
    assert_eq!(u.root_id, 7);
    assert_eq!(u.light_id, -1);
    assert_eq!(u.surface_wh, [0, 0]);
    assert_eq!(u.renderer_type, 0);
    assert_eq!(u.sampling_type, 0);
    assert_eq!(u._pad0, [0, 0]);
}

#[test]
fn scene_uniforms_update_takes_size_and_settings() {
    let mut u = SceneUniforms::from_scene(3, 12);
    let mut rd = RenderData::new();
    rd.scene_config.renderer_type = RendererType::WFPT;
    rd.scene_config.sampling_type = SamplingStrategy::MIS;
    u.update(1920, 1080, &rd);
    assert_eq!(u.surface_wh, [1920, 1080]);
    assert_eq!(u.renderer_type, 1);
    assert_eq!(u.sampling_type, 2);
    assert_eq!(u.root_id, 3);
    assert_eq!(u.light_id, 12);
}

#[test]
fn render_data_starts_in_config_menu() {
    let rd = RenderData::new();
    assert_eq!(rd.frame_id, 0);
    assert!(!rd.update_config);
    assert_eq!(rd.render_status, RenderStatus::Config);
    assert_eq!(rd.scene_config.scene_enum, SceneEnum::CornellBox);
    assert_eq!(rd.scene_config.renderer_type, RendererType::PT);
    assert_eq!(rd.scene_config.sampling_type, SamplingStrategy::BSDF);
    assert_eq!(rd.scene_config.samples_per_pixel, 0);
    assert!(!rd.mouse_pressed);
    assert_eq!(rd.mouse_key, MouseButton::Left);
    assert!(rd.mouse_prev_pos.is_none());
    let c = SceneConfig::new();
    assert_eq!(c.scene_enum, SceneEnum::CornellBox);
}

#[test]
fn reset_restarts_frames_and_releases_mouse() {
    let mut rd = RenderData::new();
    rd.frame_id = 42;
    rd.update_config = true;
    rd.mouse_pressed = true;
    rd.mouse_prev_pos = Some(MousePos { x: 1, y: 2 });
    rd.image_dirty = true;
    rd.reset();
    assert_eq!(rd.frame_id, 0);
    assert!(!rd.update_config);
    assert!(!rd.mouse_pressed);
    assert!(rd.mouse_prev_pos.is_none());
    assert!(rd.image_dirty);
}

#[test]
fn keys_escape_quits_and_h_toggles() {
    assert_eq!(handle_key(Key::Escape, true), KeyAction::Exit);
    assert_eq!(handle_key(Key::Escape, false), KeyAction::Nothing);
    assert_eq!(handle_key(Key::KeyH, true), KeyAction::ToggleGui);
    assert_eq!(handle_key(Key::Other, true), KeyAction::Nothing);
}

#[test]
fn drag_with_right_button_orbits_and_release_ends_it() {
    let mut rd = RenderData::new();
    rd.render_status = RenderStatus::Render;
    rd.frame_id = 9;
    rd.handle_mouse_input(true, MouseButton::Right, false);
    assert!(rd.mouse_pressed);
    let p1 = MousePos { x: 10, y: 20 };
    assert_eq!(rd.handle_mouse_moved(p1), MouseMove::Nothing);
    assert_eq!(rd.mouse_prev_pos, Some(p1));
    assert_eq!(rd.frame_id, 9);
    let p2 = MousePos { x: 11, y: 21 };
    assert_eq!(rd.handle_mouse_moved(p2), MouseMove::Orbit { prev: p1 });
    assert_eq!(rd.frame_id, 0);
    assert!(rd.image_dirty);
    assert_eq!(rd.mouse_prev_pos, Some(p2));
    rd.handle_mouse_input(false, MouseButton::Left, false);
    assert!(rd.mouse_pressed);
    rd.handle_mouse_input(false, MouseButton::Right, false);
    assert!(!rd.mouse_pressed);
    assert!(rd.mouse_prev_pos.is_none());
}

#[test]
fn press_over_menu_or_in_config_is_ignored() {
    let mut rd = RenderData::new();
    rd.handle_mouse_input(true, MouseButton::Middle, false);
    assert!(!rd.mouse_pressed);
    rd.render_status = RenderStatus::Render;
    rd.handle_mouse_input(true, MouseButton::Middle, true);
    assert!(!rd.mouse_pressed);
    rd.handle_mouse_input(true, MouseButton::Middle, false);
    assert!(rd.mouse_pressed);
    rd.handle_mouse_moved(MousePos { x: 0, y: 0 });
    assert_eq!(
        rd.handle_mouse_moved(MousePos { x: 5, y: 5 }),
        MouseMove::Translate { prev: MousePos { x: 0, y: 0 } }
    );
}

#[test]
fn wheel_zooms_only_with_pixel_deltas_while_rendering() {
    let mut rd = RenderData::new();
    rd.frame_id = 5;
    assert!(!rd.handle_mouse_wheel(true));
    assert_eq!(rd.frame_id, 5);
    rd.render_status = RenderStatus::Render;
    assert!(!rd.handle_mouse_wheel(false));
    assert!(rd.handle_mouse_wheel(true));
    assert_eq!(rd.frame_id, 0);
    assert!(rd.image_dirty);
}

#[test]
fn update_switches_scene_once() {
    let mut rd = RenderData::new();
    rd.update_config = true;
    rd.scene_config.scene_enum = SceneEnum::FinalScene;
    rd.scene_config.renderer_type = RendererType::WFPT;
    rd.scene_config.samples_per_pixel = 64;
    rd.frame_id = 3;
    rd.download_image = true;
    let plan = rd.plan_update();
    assert_eq!(plan.new_scene, Some(SceneEnum::FinalScene));
    assert_eq!(plan.samples_per_pixel, Some(64));
    assert!(plan.configure_wavefront);
    assert!(plan.download);
    assert_eq!(rd.render_status, RenderStatus::Render);
    assert_eq!(rd.frame_id, 0);
    assert!(!rd.update_config);
    assert!(!rd.download_image);
    let again = rd.plan_update();
    assert_eq!(again.new_scene, None);
    assert_eq!(again.samples_per_pixel, None);
    assert!(!again.configure_wavefront);
    assert!(!again.download);
}

#[test]
fn update_keeps_scene_samples_when_zero() {
    let mut rd = RenderData::new();
    rd.update_config = true;
    let plan = rd.plan_update();
    assert_eq!(plan.new_scene, Some(SceneEnum::CornellBox));
    assert_eq!(plan.samples_per_pixel, None);
    assert!(!plan.configure_wavefront);
}

#[test]
fn frames_count_while_rendering() {
    let mut rd = RenderData::new();
    assert_eq!(rd.plan_frame(false), FramePlan::Skip);
    assert_eq!(rd.plan_frame(true), FramePlan::Idle);
    rd.render_status = RenderStatus::Render;
    rd.image_dirty = true;
    assert_eq!(
        rd.plan_frame(true),
        FramePlan::Render { frame_id: 0, clear_accum: true, renderer: RendererType::PT }
    );
    assert_eq!(rd.frame_id, 1);
    assert!(!rd.image_dirty);
    assert_eq!(
        rd.plan_frame(true),
        FramePlan::Render { frame_id: 1, clear_accum: false, renderer: RendererType::PT }
    );
}

#[test]
fn progress_caps_at_samples_per_pixel() {
    let p = sample_progress(3, 2, 10);
    assert_eq!(p.cur_samples, 6);
    assert!(!p.finished);
    let p = sample_progress(5, 2, 10);
    assert_eq!(p.cur_samples, 10);
    assert!(p.finished);
    let p = sample_progress(9, 2, 10);
    assert_eq!(p.cur_samples, 10);
    assert!(p.finished);
}

#[test]
fn wavefront_plan_splits_rays_into_passes() {
    let p = plan_wavefront(0, 1, 200, 1080, 1080, 50);
    assert!(p.trace);
    assert_eq!(p.total_ray_count, 1080 * 1080);
    assert_eq!(p.init_ray_count, 1 << 20);
    assert_eq!(p.workgroups, (1 << 20) / 256);
    assert_eq!(p.iterations, 2 * 50);
    let small = plan_wavefront(3, 2, 100, 10, 10, 4);
    assert_eq!(small.total_ray_count, 200);
    assert_eq!(small.init_ray_count, 200);
    assert_eq!(small.workgroups, 1);
    assert_eq!(small.iterations, 4);
    let done = plan_wavefront(100, 2, 200, 10, 10, 4);
    assert!(!done.trace);
    assert_eq!(done.iterations, 0);
}

#[test]
fn wavefront_buffer_layout() {
    assert_eq!(RAYPOOL_BUFFER_SIZE, 296 * (1u64 << 20) + 16);
    assert_eq!(QUEUE_BUFFER_SIZE, (1u64 << 20) * 16 + 16);
    assert_eq!(queue_header(), [0, 0, 1 << 20, 0]);
}

#[test]
fn buffer_sizes() {
    assert_eq!(padded_bytes_per_row(1), 256);
    assert_eq!(padded_bytes_per_row(64), 256);
    assert_eq!(padded_bytes_per_row(65), 512);
    assert_eq!(padded_bytes_per_row(1080), 4352);
    assert_eq!(staging_buffer_size(1080, 2), 8704);
    assert_eq!(accum_buffer_size(1920, 1080), 1920 * 1080 * 16);
}

#[test]
fn picture_drops_padding_and_swaps_red_and_blue() {
    // Two rows of two pixels; each row padded to 256 bytes.
    let mut bytes = vec![0u8; 512];
    for (i, b) in [10u8, 11, 12, 13, 20, 21, 22, 23].iter().enumerate() {
        bytes[i] = *b;
    }
    for (i, b) in [30u8, 31, 32, 33, 40, 41, 42, 43].iter().enumerate() {
        bytes[256 + i] = *b;
    }
    let pic = picture_from_copy(&bytes, 2, 2);
    assert_eq!(
        pic,
        vec![12, 11, 10, 13, 22, 21, 20, 23, 32, 31, 30, 33, 42, 41, 40, 43]
    );
}

#[test]
fn middle_drag_restarts_the_render() {
    let mut rd = RenderData::new();
    rd.render_status = RenderStatus::Render;
    rd.frame_id = 40;
    rd.handle_mouse_input(true, MouseButton::Middle, false);
    let p1 = MousePos { x: 1, y: 2 };
    let p2 = MousePos { x: 3, y: 4 };
    rd.handle_mouse_moved(p1);
    assert_eq!(rd.handle_mouse_moved(p2), MouseMove::Translate { prev: p1 });
    assert_eq!(
        rd.plan_frame(true),
        FramePlan::Render { frame_id: 0, clear_accum: true, renderer: RendererType::PT }
    );
}

#[test]
fn idle_frames_need_no_room_in_the_counter() {
    let mut rd = RenderData::new();
    rd.frame_id = u32::MAX;
    assert_eq!(rd.plan_frame(true), FramePlan::Idle);
    assert_eq!(rd.plan_frame(false), FramePlan::Skip);
    assert_eq!(rd.frame_id, u32::MAX);
}

#[test]
fn saved_picture_is_a_png_of_the_copy() {
    // One row of two pixels, blue-green-red-alpha, padded to 256 bytes.
    let mut copy = vec![0u8; 256];
    copy[..8].copy_from_slice(&[10, 20, 30, 255, 40, 50, 60, 128]);
    let png = picture_png(&copy, 2, 1).expect("the picture encodes");
    assert_eq!(&png[..8], &[0x89, b'P', b'N', b'G', 0x0d, 0x0a, 0x1a, 0x0a]);
    let back = image::load_from_memory(&png).unwrap().to_rgba8();
    assert_eq!((back.width(), back.height()), (2, 1));
    assert_eq!(back.into_raw(), vec![30, 20, 10, 255, 60, 50, 40, 128]);
}
