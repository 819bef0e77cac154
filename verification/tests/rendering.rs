use foxiefox::rendering::buffer::{
    element_range, usage_bits, BufferKind, ElementBound, DEFAULT_INITIAL_CAPACITY,
    USAGE_COPY_DST, USAGE_COPY_SRC, USAGE_INDEX, USAGE_INDIRECT, USAGE_STORAGE, USAGE_UNIFORM,
    USAGE_VERTEX,
};
use foxiefox::rendering::data_loader::{
    check_texture_size, RgbaImage, TextureSizeError, COPY_BUFFER_ALIGNMENT, DOWNLEVEL_INDIRECT_EXECUTION,
    LOADED_TEXTURE_USAGE, TEXTURE_USAGE_COPY_DST, TEXTURE_USAGE_COPY_SRC, TEXTURE_USAGE_RENDER_ATTACHMENT,
    TEXTURE_USAGE_TEXTURE_BINDING,
};
use foxiefox::rendering::frames::{FrameQueues, InFlight};
use foxiefox::rendering::gpu_lookup::{first_supported, GPULookupError};
use foxiefox::rendering::pipeline::{check_bindings, BindingError};
use foxiefox::rendering::surface::{
    choose_format, surface_action, SurfaceAction, SurfaceFailure, SurfaceStatus,
};
use foxiefox::rendering::util::{wait_result, PollOutcome, WaitError};
use foxiefox::util::pow2::{is_power_of_two, next_power_of_two};

#[test]
fn usage_bits_match_wgpu() {
    assert_eq!(USAGE_COPY_SRC, wgpu::BufferUsages::COPY_SRC.bits());
    assert_eq!(USAGE_COPY_DST, wgpu::BufferUsages::COPY_DST.bits());
    assert_eq!(USAGE_INDEX, wgpu::BufferUsages::INDEX.bits());
    assert_eq!(USAGE_VERTEX, wgpu::BufferUsages::VERTEX.bits());
    assert_eq!(USAGE_UNIFORM, wgpu::BufferUsages::UNIFORM.bits());
    assert_eq!(USAGE_STORAGE, wgpu::BufferUsages::STORAGE.bits());
    assert_eq!(USAGE_INDIRECT, wgpu::BufferUsages::INDIRECT.bits());
    assert_eq!(COPY_BUFFER_ALIGNMENT, wgpu::COPY_BUFFER_ALIGNMENT);
    assert_eq!(DOWNLEVEL_INDIRECT_EXECUTION, wgpu::DownlevelFlags::INDIRECT_EXECUTION.bits());
    assert_eq!(TEXTURE_USAGE_COPY_SRC, wgpu::TextureUsages::COPY_SRC.bits());
    assert_eq!(TEXTURE_USAGE_COPY_DST, wgpu::TextureUsages::COPY_DST.bits());
    assert_eq!(TEXTURE_USAGE_TEXTURE_BINDING, wgpu::TextureUsages::TEXTURE_BINDING.bits());
    assert_eq!(TEXTURE_USAGE_RENDER_ATTACHMENT, wgpu::TextureUsages::RENDER_ATTACHMENT.bits());
    assert_eq!(
        LOADED_TEXTURE_USAGE,
        (wgpu::TextureUsages::TEXTURE_BINDING | wgpu::TextureUsages::COPY_DST).bits()
    );
    assert_eq!(DEFAULT_INITIAL_CAPACITY, 64);
}

#[test]
fn usage_of_each_kind() {
    let copy = wgpu::BufferUsages::COPY_DST | wgpu::BufferUsages::COPY_SRC;
    assert_eq!(usage_bits(BufferKind::Index), (copy | wgpu::BufferUsages::INDEX).bits());
    assert_eq!(usage_bits(BufferKind::Vertex), (copy | wgpu::BufferUsages::VERTEX).bits());
    assert_eq!(usage_bits(BufferKind::Uniform), (copy | wgpu::BufferUsages::UNIFORM).bits());
    assert_eq!(usage_bits(BufferKind::Storage), (copy | wgpu::BufferUsages::STORAGE).bits());
    assert_eq!(usage_bits(BufferKind::Indirect), (copy | wgpu::BufferUsages::INDIRECT).bits());
}

#[test]
fn powers_of_two() {
    assert!(is_power_of_two(1));
    assert!(is_power_of_two(64));
    assert!(!is_power_of_two(0));
    assert!(!is_power_of_two(6));
    assert_eq!(next_power_of_two(0), 1);
    assert_eq!(next_power_of_two(1), 1);
    assert_eq!(next_power_of_two(5), 8);
    assert_eq!(next_power_of_two(64), 64);
    assert_eq!(next_power_of_two(65), 128);
}

#[test]
fn element_ranges() {
    assert_eq!(element_range(ElementBound::Unbounded, ElementBound::Unbounded, 6), (0, 6));
    // As Rust's ranges: 2..=4 is elements 2, 3 and 4; 0..2 is elements 0 and 1
    assert_eq!(element_range(ElementBound::Included(2), ElementBound::Included(4), 6), (2, 5));
    assert_eq!(element_range(ElementBound::Included(0), ElementBound::Excluded(2), 6), (0, 2));
    assert_eq!(element_range(ElementBound::Excluded(2), ElementBound::Excluded(5), 6), (3, 5));
    assert_eq!(element_range(ElementBound::Unbounded, ElementBound::Excluded(0), 6), (0, 0));
}

#[test]
fn texture_sizes() {
    assert_eq!(check_texture_size(8192, 0, 10), Err(TextureSizeError::Empty));
    assert_eq!(check_texture_size(8192, 10, 0), Err(TextureSizeError::Empty));
    assert_eq!(check_texture_size(8192, 8193, 10), Err(TextureSizeError::TooLarge));
    assert_eq!(check_texture_size(8192, 8192, 8192), Ok(()));
    assert_eq!(check_texture_size(8192, 1, 1), Ok(()));
    // A downlevel device makes smaller textures
    assert_eq!(check_texture_size(2048, 2049, 1), Err(TextureSizeError::TooLarge));
    assert_eq!(check_texture_size(2048, 2048, 2048), Ok(()));
    // Rows of 4-byte pixels must fit a u32
    assert_eq!(check_texture_size(u32::MAX, 1 << 30, 1), Err(TextureSizeError::TooLarge));
    assert_eq!(check_texture_size(u32::MAX, (1 << 30) - 1, 1), Ok(()));
}

#[test]
fn wait_results() {
    assert_eq!(wait_result(PollOutcome::QueueEmpty), Ok(()));
    assert_eq!(wait_result(PollOutcome::WaitSucceeded), Ok(()));
    assert_eq!(wait_result(PollOutcome::Poll), Err(WaitError::NotWaited));
    assert_eq!(wait_result(PollOutcome::Failed), Err(WaitError::DeviceFailed));
}

#[test]
fn gpu_lookup_picks_first_supported() {
    assert_eq!(first_supported(&vec![false, true, true]), Some(1));
    assert_eq!(first_supported(&vec![false, false]), None);
    assert_eq!(first_supported(&vec![]), None);
    assert_eq!(GPULookupError::ThereIsNoGPU.message(), "There is no GPU on this system");
    assert_eq!(GPULookupError::GPUListNotInitialized.message(), "List of GPUs not initialized yet");
}

#[test]
fn surface_format_choice() {
    assert_eq!(choose_format(&vec![false, true, true]), Some(1));
    assert_eq!(choose_format(&vec![false, false]), Some(0));
    assert_eq!(choose_format(&vec![]), None);
}

#[test]
fn surface_actions() {
    assert_eq!(surface_action(SurfaceStatus::Success), SurfaceAction::Render { reconfigure_next: false });
    assert_eq!(surface_action(SurfaceStatus::Suboptimal), SurfaceAction::Render { reconfigure_next: true });
    assert_eq!(surface_action(SurfaceStatus::Outdated), SurfaceAction::ReconfigureAndSkip);
    assert_eq!(surface_action(SurfaceStatus::Timeout), SurfaceAction::Skip);
    assert_eq!(surface_action(SurfaceStatus::Occluded), SurfaceAction::Skip);
    assert_eq!(surface_action(SurfaceStatus::Lost), SurfaceAction::Fail(SurfaceFailure::DeviceLost));
    assert_eq!(
        surface_action(SurfaceStatus::Validation),
        SurfaceAction::Fail(SurfaceFailure::ValidationError)
    );
    assert_eq!(SurfaceFailure::DeviceLost.message(), "Device is lost!");
    assert_eq!(SurfaceFailure::ValidationError.message(), "Validation error occured!");
}

const NONE: [bool; 8] = [false; 8];

#[test]
fn bindings_of_an_indexed_two_buffer_pipeline() {
    let mut required = NONE;
    required[0] = true;
    required[1] = true;
    let plan = check_bindings(required, required, 0, 0, true, true, true).unwrap();
    assert_eq!(plan.slot_bindings, vec![Some(0), Some(1), None, None, None, None, None, None]);
    assert_eq!(plan.extra_first, 2);
}

#[test]
fn bindings_skip_unused_slots() {
    let mut required = NONE;
    required[0] = true;
    required[3] = true;
    let plan = check_bindings(required, required, 2, 2, false, false, false).unwrap();
    assert_eq!(plan.slot_bindings, vec![Some(0), None, None, Some(1), None, None, None, None]);
    assert_eq!(plan.extra_first, 2);
}

#[test]
fn bindings_refuse_mismatches_in_order() {
    let mut required = NONE;
    required[0] = true;
    let mut given = NONE;
    given[2] = true;
    assert_eq!(
        check_bindings(required, given, 0, 0, true, true, true),
        Err(BindingError::MissingVertexBuffer(0))
    );
    assert_eq!(
        check_bindings(NONE, given, 0, 0, true, true, true),
        Err(BindingError::UnexpectedVertexBuffer(2))
    );
    assert_eq!(
        check_bindings(NONE, NONE, 1, 0, true, true, true),
        Err(BindingError::ExtraBufferCount { expected: 1, given: 0 })
    );
    assert_eq!(check_bindings(NONE, NONE, 0, 0, true, false, true), Err(BindingError::MissingIndexBuffer));
    assert_eq!(check_bindings(NONE, NONE, 0, 0, false, true, false), Err(BindingError::UnexpectedIndexBuffer));
    assert_eq!(check_bindings(NONE, NONE, 0, 0, true, true, false), Err(BindingError::MissingBaseVertex));
    assert_eq!(check_bindings(NONE, NONE, 0, 0, false, false, true), Err(BindingError::UnexpectedBaseVertex));
}

#[test]
fn frame_queues_render_cycle_keeps_frames() {
    let mut q: FrameQueues<u32, &str> = FrameQueues::new();
    q.reset(vec![10, 11]);
    assert_eq!((q.cached_len(), q.inflight_len()), (2, 0));
    let f = q.take_cached().unwrap();
    assert_eq!(f, 10);
    q.push_inflight(f, "poll-10");
    assert_eq!((q.cached_len(), q.inflight_len()), (1, 1));
    let oldest = q.take_oldest().unwrap();
    assert_eq!(oldest.frame, 10);
    q.settle_checked(oldest, false, false);
    assert_eq!((q.cached_len(), q.inflight_len()), (1, 1));
    let oldest = q.take_oldest().unwrap();
    assert_eq!(oldest.poller, Some("poll-10"));
    q.settle_checked(oldest, true, true);
    assert_eq!((q.cached_len(), q.inflight_len()), (2, 0));
    assert_eq!(q.take_cached(), Some(11));
    assert_eq!(q.take_cached(), Some(10));
    assert_eq!(q.take_cached(), None);
}

#[test]
fn frame_queues_settle_without_present() {
    let mut q: FrameQueues<u32, u8> = FrameQueues::new();
    q.push_inflight(5, 1);
    let oldest = q.take_oldest().unwrap();
    q.settle_checked(oldest, true, false);
    let again: InFlight<u32, u8> = q.take_oldest().unwrap();
    assert_eq!(again.poller, None);
    assert_eq!(q.settle_waited(again.frame, false), None);
    assert_eq!(q.inflight_len(), 1);
    let last = q.take_oldest().unwrap();
    assert_eq!(q.settle_waited(last.frame, true), Some(5));
    assert_eq!(q.inflight_len(), 0);
}

#[test]
fn rgba_images_need_every_pixel() {
    assert!(RgbaImage::new(vec![0; 24], 3, 2).is_some());
    assert!(RgbaImage::new(vec![0; 23], 3, 2).is_none());
    assert!(RgbaImage::new(vec![], 0, 5).is_some());
    let img = RgbaImage::new(vec![7; 32], 2, 4).unwrap();
    assert_eq!((img.width(), img.height()), (2, 4));
}
