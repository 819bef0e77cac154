//! Loading data into the GPU: the device with its limits, writes and copies
//! of buffers, and textures made from images.
//!
//! What a buffer holds is followed as the bytes the GPU sees once the queued
//! work runs: a queued write or a submitted copy changes them at once, in the
//! order the calls are made, which is the order wgpu runs them in.

use vstd::prelude::*;
use vstd::arithmetic::div_mod::lemma_fundamental_div_mod;

use crate::rendering::buffer::{GpuBuffer, USAGE_COPY_DST, USAGE_COPY_SRC};
use crate::rendering::util::{wait_device, WaitError};

verus! {

/// The alignment wgpu asks of buffer copy offsets and sizes.
pub const COPY_BUFFER_ALIGNMENT: u64 = 4;

/// The bit of `wgpu::DownlevelFlags::INDIRECT_EXECUTION`.
pub const DOWNLEVEL_INDIRECT_EXECUTION: u32 = 4;

/// A wgpu device, with the limits it was created with and whether it runs
/// indirect draws. Its identity is the device as it was first handed out:
/// handles duplicated from it keep that identity, so two `GpuDevice`s have
/// one identity exactly when they are handles to one device.
pub struct GpuDevice {
    raw: wgpu::Device,
    max_buffer_size: u64,
    max_texture_dimension_2d: u32,
    indirect_execution: bool,
    id: Ghost<wgpu::Device>,
}

/// The queue of a device, with the identity of that device.
pub struct GpuQueue {
    raw: wgpu::Queue,
    device_id: Ghost<wgpu::Device>,
}

/// What a device request hands back: the device, its queue, the device's
/// largest buffer and 2D texture size, and the bits of the adapter's
/// downlevel flags. Only a request makes one, so the queue is the device's
/// and the limits and flags are those of the device and its adapter.
pub struct DeviceParts {
    raw: wgpu::Device,
    queue: wgpu::Queue,
    max_buffer_size: u64,
    max_texture_dimension_2d: u32,
    downlevel_flags: u32,
}

impl DeviceParts {
    /// The device.
    pub closed spec fn spec_raw(&self) -> wgpu::Device {
        self.raw
    }

    /// The device's queue.
    pub closed spec fn spec_queue(&self) -> wgpu::Queue {
        self.queue
    }

    /// The device's `max_buffer_size` limit, in bytes.
    pub closed spec fn spec_max_buffer_size(&self) -> u64 {
        self.max_buffer_size
    }

    /// The device's `max_texture_dimension_2d` limit.
    pub closed spec fn spec_max_texture_dimension_2d(&self) -> u32 {
        self.max_texture_dimension_2d
    }

    /// The bits of the adapter's downlevel flags.
    pub closed spec fn spec_downlevel_flags(&self) -> u32 {
        self.downlevel_flags
    }
}

/// Requests a device and its queue from `adapter` with
/// `wgpu::Adapter::request_device` and the default descriptor, and waits for
/// the answer with `futures::executor::block_on`. On success it hands out
/// the device, its queue, the device's `max_buffer_size` and
/// `max_texture_dimension_2d` (`wgpu::Device::limits`), and the bits of the
/// adapter's downlevel flags (`wgpu::Adapter::get_downlevel_capabilities`),
/// which hold for the devices it makes. All of these depend on the machine:
/// nothing is claimed of them; the error is turned into an `anyhow::Error`.
#[verifier::external_body]
fn request_gpu_device(adapter: &wgpu::Adapter) -> (res: Result<DeviceParts, anyhow::Error>) {
    match futures::executor::block_on(adapter.request_device(&wgpu::DeviceDescriptor::default())) {
        Ok((raw, queue)) => {
            let limits = raw.limits();
            let downlevel_flags = adapter.get_downlevel_capabilities().flags.bits();
            Ok(DeviceParts {
                raw, queue, downlevel_flags,
                max_buffer_size: limits.max_buffer_size,
                max_texture_dimension_2d: limits.max_texture_dimension_2d,
            })
        },
        Err(e) => Err(anyhow::Error::new(e)),
    }
}

/// Calls `wgpu::Device::clone`, another handle to the same device.
#[verifier::external_body]
fn clone_device(device: &wgpu::Device) -> (res: wgpu::Device) {
    device.clone()
}

/// Calls `wgpu::Queue::clone`, another handle to the same queue.
#[verifier::external_body]
fn clone_queue(queue: &wgpu::Queue) -> (res: wgpu::Queue) {
    queue.clone()
}

/// Compares the devices of two `GpuDevice`s with `wgpu::Device`'s `==`,
/// which tells whether they are handles to one device. Two `GpuDevice`s are
/// handles to one device exactly when they have one identity, which this
/// contract claims.
#[verifier::external_body]
fn same_wgpu_device(a: &GpuDevice, b: &GpuDevice) -> (res: bool)
    ensures
        res == (a.spec_id() == b.spec_id()),
{
    a.raw == b.raw
}

impl GpuDevice {
    /// The wgpu device.
    pub closed spec fn spec_raw(&self) -> wgpu::Device {
        self.raw
    }

    /// The identity of the device.
    pub closed spec fn spec_id(&self) -> wgpu::Device {
        self.id@
    }

    /// The largest buffer the device creates, in bytes.
    pub closed spec fn spec_max_buffer_size(&self) -> nat {
        self.max_buffer_size as nat
    }

    /// The largest width and height of a 2D texture the device creates.
    pub closed spec fn spec_max_texture_dimension_2d(&self) -> nat {
        self.max_texture_dimension_2d as nat
    }

    /// Whether the device runs indirect draws, so takes indirect buffers.
    pub closed spec fn spec_indirect_execution(&self) -> bool {
        self.indirect_execution
    }

    /// The device and queue of a request, with the device's limits, and
    /// whether it runs indirect draws as the adapter's downlevel flags say.
    /// The queue belongs to the device.
    pub fn from_parts(parts: DeviceParts) -> (res: (GpuDevice, GpuQueue))
        ensures
            res.0.spec_raw() == parts.spec_raw(),
            res.0.spec_max_buffer_size() == parts.spec_max_buffer_size(),
            res.0.spec_max_texture_dimension_2d() == parts.spec_max_texture_dimension_2d(),
            res.0.spec_indirect_execution() == (parts.spec_downlevel_flags() & DOWNLEVEL_INDIRECT_EXECUTION
                != 0),
            res.1.spec_raw() == parts.spec_queue(),
            res.1.spec_device_id() == res.0.spec_id(),
    {
        let DeviceParts { raw, queue, max_buffer_size, max_texture_dimension_2d, downlevel_flags } = parts;
        let ghost id = raw;
        let device = GpuDevice {
            raw,
            max_buffer_size,
            max_texture_dimension_2d,
            indirect_execution: downlevel_flags & DOWNLEVEL_INDIRECT_EXECUTION != 0,
            id: Ghost(id),
        };
        (device, GpuQueue { raw: queue, device_id: Ghost(id) })
    }

    /// Requests a device and its queue from `adapter`: `from_parts` of what
    /// the request hands back. The queue belongs to the device.
    pub fn request(adapter: &wgpu::Adapter) -> (res: Result<(GpuDevice, GpuQueue), anyhow::Error>)
        ensures
            res matches Ok((device, queue)) ==> queue.spec_device_id() == device.spec_id(),
    {
        match request_gpu_device(adapter) {
            Ok(parts) => Ok(GpuDevice::from_parts(parts)),
            Err(e) => Err(e),
        }
    }

    /// Another handle to the same device, with the same limits.
    pub fn duplicate(&self) -> (res: Self)
        ensures
            res.spec_id() == self.spec_id(),
            res.spec_max_buffer_size() == self.spec_max_buffer_size(),
            res.spec_max_texture_dimension_2d() == self.spec_max_texture_dimension_2d(),
            res.spec_indirect_execution() == self.spec_indirect_execution(),
    {
        GpuDevice {
            raw: clone_device(&self.raw),
            max_buffer_size: self.max_buffer_size,
            max_texture_dimension_2d: self.max_texture_dimension_2d,
            indirect_execution: self.indirect_execution,
            id: Ghost(self.id@),
        }
    }

    /// Whether `other` is a handle to the same device.
    pub fn is_same_device(&self, other: &GpuDevice) -> (res: bool)
        ensures
            res == (self.spec_id() == other.spec_id()),
    {
        same_wgpu_device(self, other)
    }

    /// The largest buffer the device creates, in bytes.
    pub fn max_buffer_size(&self) -> (res: u64)
        ensures
            res == self.spec_max_buffer_size(),
    {
        self.max_buffer_size
    }

    /// The largest width and height of a 2D texture the device creates.
    pub fn max_texture_dimension_2d(&self) -> (res: u32)
        ensures
            res == self.spec_max_texture_dimension_2d(),
    {
        self.max_texture_dimension_2d
    }

    /// Whether the device runs indirect draws.
    pub fn indirect_execution(&self) -> (res: bool)
        ensures
            res == self.spec_indirect_execution(),
    {
        self.indirect_execution
    }

    /// The wgpu device.
    pub fn raw(&self) -> (res: &wgpu::Device)
        ensures
            *res == self.spec_raw(),
    {
        &self.raw
    }
}

impl GpuQueue {
    /// The wgpu queue.
    pub closed spec fn spec_raw(&self) -> wgpu::Queue {
        self.raw
    }

    /// The identity of the device the queue belongs to.
    pub closed spec fn spec_device_id(&self) -> wgpu::Device {
        self.device_id@
    }

    /// Another handle to the same queue.
    pub fn duplicate(&self) -> (res: Self)
        ensures
            res.spec_device_id() == self.spec_device_id(),
    {
        GpuQueue { raw: clone_queue(&self.raw), device_id: Ghost(self.device_id@) }
    }

    /// The wgpu queue.
    pub fn raw(&self) -> (res: &wgpu::Queue)
        ensures
            *res == self.spec_raw(),
    {
        &self.raw
    }
}

/// `bytes` with `data` written over it from `at` on.
pub open spec fn overwrite(bytes: Seq<u8>, at: int, data: Seq<u8>) -> Seq<u8> {
    bytes.take(at) + data + bytes.skip(at + data.len())
}

/// Loads data, buffers or textures, into the GPU: a device and its queue.
pub struct DataLoader {
    device: GpuDevice,
    upload_queue: GpuQueue,
}

impl DataLoader {
    /// The queue belongs to the device.
    #[verifier::type_invariant]
    spec fn queue_of_device(&self) -> bool {
        self.upload_queue.spec_device_id() == self.device.spec_id()
    }
}

/// Whether a copy of `size` bytes between these offsets is aligned as wgpu
/// asks.
pub open spec fn copy_aligned(offset_src: u64, offset_dest: u64, size: u64) -> bool {
    offset_src % 4 == 0 && offset_dest % 4 == 0 && size % 4 == 0
}

/// Whether a copy of `size` bytes from `src` at `offset_src` to `dest` at
/// `offset_dest` stays inside both buffers, which allow it.
pub open spec fn copy_in_bounds(
    src: GpuBuffer,
    dest: GpuBuffer,
    offset_src: u64,
    offset_dest: u64,
    size: u64,
) -> bool {
    &&& offset_src + size <= src.spec_size()
    &&& offset_dest + size <= dest.spec_size()
    &&& src.spec_usage() & USAGE_COPY_SRC != 0
    &&& dest.spec_usage() & USAGE_COPY_DST != 0
}

/// What the destination holds after a copy of `size` bytes.
pub open spec fn copied(src: GpuBuffer, dest: GpuBuffer, offset_src: u64, offset_dest: u64, size: u64) -> Seq<
    u8,
> {
    overwrite(
        dest.spec_contents(),
        offset_dest as int,
        src.spec_contents().subrange(offset_src as int, offset_src + size),
    )
}

/// Calls `wgpu::Queue::write_buffer`, which "copies the bytes of data into
/// buffer starting at offset" once the queue runs its work. wgpu refuses
/// (through the device's error handler, which panics by default) a buffer of
/// another device than the queue's, offsets and sizes that are not multiples
/// of 4, writes past the end and buffers without copy-destination usage; the
/// contract leaves those out.
#[verifier::external_body]
fn queue_write_buffer(queue: &GpuQueue, buf: &mut GpuBuffer, offset: u64, data: &[u8])
    requires
        old(buf).spec_device_id() == queue.spec_device_id(),
        offset % 4 == 0,
        data@.len() % 4 == 0,
        offset + data@.len() <= old(buf).spec_size(),
        old(buf).spec_usage() & USAGE_COPY_DST != 0,
    ensures
        final(buf).spec_contents() == overwrite(old(buf).spec_contents(), offset as int, data@),
        final(buf).spec_size() == old(buf).spec_size(),
        final(buf).spec_usage() == old(buf).spec_usage(),
        final(buf).spec_raw() == old(buf).spec_raw(),
        final(buf).spec_device_id() == old(buf).spec_device_id(),
{
    queue.raw().write_buffer(buf.raw(), offset, data)
}

/// Records a buffer to buffer copy with
/// `wgpu::CommandEncoder::copy_buffer_to_buffer` on an encoder of `device`
/// and submits it with `wgpu::Queue::submit` to `queue`, returning the
/// submission; the copied bytes land in the destination when the GPU runs
/// it. The contract leaves out what wgpu refuses: buffers of another device
/// than the encoder's and the queue's, misaligned or out of bounds copies and
/// buffers without copy usage. wgpu also refuses a copy within one buffer: a
/// `GpuBuffer` is the only owner of its wgpu buffer (the library never clones
/// one), and `dest` is borrowed mutably while `src` is borrowed, so they are
/// two buffers.
#[verifier::external_body]
fn submit_buffer_copy(
    device: &GpuDevice,
    queue: &GpuQueue,
    src: &GpuBuffer,
    dest: &mut GpuBuffer,
    offset_src: u64,
    offset_dest: u64,
    size: u64,
) -> (res: wgpu::SubmissionIndex)
    requires
        queue.spec_device_id() == device.spec_id(),
        src.spec_device_id() == device.spec_id(),
        old(dest).spec_device_id() == device.spec_id(),
        copy_aligned(offset_src, offset_dest, size),
        copy_in_bounds(*src, *old(dest), offset_src, offset_dest, size),
    ensures
        final(dest).spec_contents() == copied(*src, *old(dest), offset_src, offset_dest, size),
        final(dest).spec_size() == old(dest).spec_size(),
        final(dest).spec_usage() == old(dest).spec_usage(),
        final(dest).spec_raw() == old(dest).spec_raw(),
        final(dest).spec_device_id() == old(dest).spec_device_id(),
{
    let mut encoder = device.raw().create_command_encoder(
        &wgpu::CommandEncoderDescriptor { label: Some("GPU to GPU buffer copy from DataLoader") },
    );
    encoder.copy_buffer_to_buffer(src.raw(), offset_src, dest.raw(), offset_dest, Some(size));
    queue.raw().submit([encoder.finish()])
}

/// The texture usage bit `wgpu::TextureUsages::COPY_SRC`.
pub const TEXTURE_USAGE_COPY_SRC: u32 = 1;

/// The texture usage bit `wgpu::TextureUsages::COPY_DST`.
pub const TEXTURE_USAGE_COPY_DST: u32 = 2;

/// The texture usage bit `wgpu::TextureUsages::TEXTURE_BINDING`.
pub const TEXTURE_USAGE_TEXTURE_BINDING: u32 = 4;

/// The texture usage bit `wgpu::TextureUsages::RENDER_ATTACHMENT`.
pub const TEXTURE_USAGE_RENDER_ATTACHMENT: u32 = 16;

/// The usages of a texture loaded from an image: it is bound for sampling
/// and written into.
pub const LOADED_TEXTURE_USAGE: u32 = 6;

/// The pixel formats the library makes textures in.
#[derive(Clone, Copy, PartialEq, Eq, Debug, Structural)]
pub enum PixelFormat {
    /// `wgpu::TextureFormat::Rgba8UnormSrgb`: 4 bytes per pixel.
    Rgba8UnormSrgb,
}

/// Bytes of one pixel of the format.
pub open spec fn bytes_per_pixel(format: PixelFormat) -> nat {
    match format {
        PixelFormat::Rgba8UnormSrgb => 4,
    }
}

/// Usages an `Rgba8UnormSrgb` texture can be made with: some of copying,
/// binding for sampling and rendering into, and at least one.
pub open spec fn texture_usage_ok(usage: u32) -> bool {
    usage != 0 && usage & 23u32 == usage
}

/// Why an image cannot become a texture.
#[derive(Clone, Copy, PartialEq, Eq, Debug, Structural)]
pub enum TextureSizeError {
    /// The image has no pixels.
    Empty,
    /// The image is wider or higher than the device makes textures.
    TooLarge,
}

/// Whether an image of this size can become a texture of the device: it has
/// pixels, fits the device's limit and its rows of 4-byte pixels fit a `u32`.
pub open spec fn texture_size_ok(limit: nat, width: u32, height: u32) -> bool {
    1 <= width <= limit && 1 <= height <= limit && 4 * width <= u32::MAX
}

/// Whether an image of this size can become a texture of a device with this
/// limit, and why not.
pub open spec fn texture_size_check(limit: nat, width: u32, height: u32) -> Result<(), TextureSizeError> {
    if width == 0 || height == 0 {
        Err(TextureSizeError::Empty)
    } else if width > limit || height > limit || 4 * width > u32::MAX {
        Err(TextureSizeError::TooLarge)
    } else {
        Ok(())
    }
}

/// Whether an image of this size can become a texture of a device with this
/// limit, and why not.
pub fn check_texture_size(limit: u32, width: u32, height: u32) -> (res: Result<(), TextureSizeError>)
    ensures
        res == texture_size_check(limit as nat, width, height),
        res is Ok <==> texture_size_ok(limit as nat, width, height),
{
    if width == 0 || height == 0 {
        Err(TextureSizeError::Empty)
    } else if width > limit || height > limit || width > u32::MAX / 4 {
        Err(TextureSizeError::TooLarge)
    } else {
        Ok(())
    }
}

/// A 2D texture on the GPU, with its size, format, usages and device.
pub struct GpuTexture {
    raw: wgpu::Texture,
    width: u32,
    height: u32,
    format: PixelFormat,
    usage: u32,
    contents: Ghost<Seq<u8>>,
    device_id: Ghost<wgpu::Device>,
}

impl GpuTexture {
    /// The bytes of the texture's pixels, row after row, as the GPU sees
    /// them once the queued work runs.
    pub closed spec fn spec_contents(&self) -> Seq<u8> {
        self.contents@
    }

    /// Width of the texture, in pixels.
    pub closed spec fn spec_width(&self) -> u32 {
        self.width
    }

    /// Height of the texture, in pixels.
    pub closed spec fn spec_height(&self) -> u32 {
        self.height
    }

    /// Pixel format of the texture.
    pub closed spec fn spec_format(&self) -> PixelFormat {
        self.format
    }

    /// Usage bits of the texture.
    pub closed spec fn spec_usage(&self) -> u32 {
        self.usage
    }

    /// The identity of the device the texture is on.
    pub closed spec fn spec_device_id(&self) -> wgpu::Device {
        self.device_id@
    }

    /// The wgpu texture.
    pub closed spec fn spec_raw(&self) -> wgpu::Texture {
        self.raw
    }

    /// The wgpu texture.
    pub fn into_raw(self) -> (res: wgpu::Texture)
        ensures
            res == self.spec_raw(),
    {
        self.raw
    }
}

/// An image as RGBA pixels, 4 bytes each, row after row.
pub struct RgbaImage {
    pixels: Vec<u8>,
    width: u32,
    height: u32,
}

impl RgbaImage {
    /// There are bytes for every pixel.
    #[verifier::type_invariant]
    spec fn has_every_pixel(&self) -> bool {
        self.pixels@.len() >= 4 * self.width * self.height
    }

    /// The bytes of the pixels.
    pub closed spec fn spec_pixels(&self) -> Seq<u8> {
        self.pixels@
    }

    /// Width of the image, in pixels.
    pub closed spec fn spec_width(&self) -> u32 {
        self.width
    }

    /// Height of the image, in pixels.
    pub closed spec fn spec_height(&self) -> u32 {
        self.height
    }

    /// The image of these pixels, when there are bytes for all of them.
    pub fn new(pixels: Vec<u8>, width: u32, height: u32) -> (res: Option<Self>)
        ensures
            res is Some <==> pixels@.len() >= 4 * width * height,
            res matches Some(img) ==> img.spec_pixels() == pixels@ && img.spec_width() == width
                && img.spec_height() == height,
    {
        let w = width as u128;
        let h = height as u128;
        proof {
            assert(w * h <= 0xffff_ffffu128 * 0xffff_ffffu128) by (nonlinear_arith)
                requires
                    w <= 0xffff_ffffu128,
                    h <= 0xffff_ffffu128,
            ;
            assert(4 * width * height == 4 * (w * h)) by (nonlinear_arith)
                requires
                    w == width,
                    h == height,
            ;
        }
        if (pixels.len() as u128) < 4 * (w * h) {
            None
        } else {
            Some(RgbaImage { pixels, width, height })
        }
    }

    /// Width of the image, in pixels.
    pub fn width(&self) -> (res: u32)
        ensures
            res == self.spec_width(),
    {
        self.width
    }

    /// Height of the image, in pixels.
    pub fn height(&self) -> (res: u32)
        ensures
            res == self.spec_height(),
    {
        self.height
    }
}

/// What `image::load_from_memory` decodes from these bytes, converted to
/// RGBA8 with `DynamicImage::to_rgba8`: the pixel bytes (`into_raw`) with the
/// width and height (`dimensions`), or nothing where the bytes decode to no
/// image. It guesses the format from the bytes and decodes them, with
/// nothing else going in.
pub uninterp spec fn rgba8_decoded(bytes: Seq<u8>) -> Option<(Seq<u8>, u32, u32)>;

/// Calls `image::load_from_memory` and converts the image with
/// `DynamicImage::to_rgba8`, handing out the pixels (`into_raw`) and the size
/// (`dimensions`); its error is turned into an `anyhow::Error`. The buffer
/// holds at least 4 bytes per pixel (`ImageBuffer::from_raw` refuses fewer).
#[verifier::external_body]
fn decode_rgba8(bytes: &[u8]) -> (res: Result<(Vec<u8>, u32, u32), anyhow::Error>)
    ensures
        res is Ok <==> rgba8_decoded(bytes@) is Some,
        res matches Ok((pixels, width, height)) ==> rgba8_decoded(bytes@) == Some((pixels@, width, height))
            && pixels@.len() >= 4 * width * height,
{
    match image::load_from_memory(bytes) {
        Ok(image) => {
            let rgba = image.to_rgba8();
            let (width, height) = rgba.dimensions();
            Ok((rgba.into_raw(), width, height))
        },
        Err(e) => Err(anyhow::Error::new(e)),
    }
}

/// Calls `wgpu::Device::create_texture` for a 2D, single sample, single mip
/// texture of the given size, format and usages. wgpu refuses zero sizes,
/// sizes above the device's limit, and usages the format does not support;
/// the contract leaves those out (`Rgba8UnormSrgb` supports copying, binding
/// and rendering into). Running out of GPU memory depends on the machine and
/// is not excluded.
#[verifier::external_body]
fn create_texture_2d(device: &GpuDevice, width: u32, height: u32, format: PixelFormat, usage: u32) -> (res:
    GpuTexture)
    requires
        1 <= width <= device.spec_max_texture_dimension_2d(),
        1 <= height <= device.spec_max_texture_dimension_2d(),
        texture_usage_ok(usage),
    ensures
        res.spec_width() == width,
        res.spec_height() == height,
        res.spec_format() == format,
        res.spec_usage() == usage,
        res.spec_device_id() == device.spec_id(),
        res.spec_contents().len() == bytes_per_pixel(format) * width * height,
{
    let wgpu_format = match format {
        PixelFormat::Rgba8UnormSrgb => wgpu::TextureFormat::Rgba8UnormSrgb,
    };
    let raw = device.raw().create_texture(&wgpu::TextureDescriptor {
        size: wgpu::Extent3d { depth_or_array_layers: 1, width, height },
        dimension: wgpu::TextureDimension::D2,
        format: wgpu_format,
        view_formats: &[], mip_level_count: 1, sample_count: 1,
        usage: wgpu::TextureUsages::from_bits_truncate(usage),
        label: None,
    });
    let contents = Ghost(Seq::new((bytes_per_pixel(format) * width * height) as nat, |i: int| 0u8));
    GpuTexture { raw, width, height, format, usage, contents, device_id: Ghost(device.spec_id()) }
}

/// The bytes a texture `row_len` bytes wide and `height` rows high holds
/// once rows are written into it from `pixels`, where they start
/// `bytes_per_row` bytes apart: each row cut to the texture's width, one
/// right after the other.
pub open spec fn written_rows(pixels: Seq<u8>, bytes_per_row: nat, row_len: nat, height: nat) -> Seq<u8> {
    Seq::new(
        row_len * height,
        |i: int| pixels[(i / (row_len as int)) * bytes_per_row + i % (row_len as int)],
    )
}

/// Calls `wgpu::Queue::write_texture` to fill the whole texture with
/// `pixels`, `height` rows that start `bytes_per_row` bytes apart; the
/// texture then holds those rows, each cut to the texture's width. wgpu
/// refuses a texture of another device than the queue's, a texture without
/// copy-destination usage, rows shorter than the texture's and too little
/// data; the contract leaves those out.
#[verifier::external_body]
fn queue_write_texture(queue: &GpuQueue, texture: &mut GpuTexture, pixels: &[u8], bytes_per_row: u32)
    requires
        old(texture).spec_device_id() == queue.spec_device_id(),
        old(texture).spec_usage() & TEXTURE_USAGE_COPY_DST != 0,
        bytes_per_row >= bytes_per_pixel(old(texture).spec_format()) * old(texture).spec_width(),
        pixels@.len() >= bytes_per_row * old(texture).spec_height(),
    ensures
        final(texture).spec_contents() == written_rows(
            pixels@,
            bytes_per_row as nat,
            bytes_per_pixel(old(texture).spec_format()) * (old(texture).spec_width() as nat),
            old(texture).spec_height() as nat,
        ),
        final(texture).spec_raw() == old(texture).spec_raw(),
        final(texture).spec_width() == old(texture).spec_width(),
        final(texture).spec_height() == old(texture).spec_height(),
        final(texture).spec_format() == old(texture).spec_format(),
        final(texture).spec_usage() == old(texture).spec_usage(),
        final(texture).spec_device_id() == old(texture).spec_device_id(),
{
    let (width, height) = (texture.width, texture.height);
    let size = wgpu::Extent3d { depth_or_array_layers: 1, width, height };
    let layout = wgpu::TexelCopyBufferLayout {
        offset: 0, bytes_per_row: Some(bytes_per_row), rows_per_image: Some(height),
    };
    let target = wgpu::TexelCopyTextureInfo {
        texture: &texture.raw, mip_level: 0,
        aspect: wgpu::TextureAspect::All, origin: wgpu::Origin3d::ZERO,
    };
    queue.raw().write_texture(target, pixels, layout, size);
    texture.contents = Ghost(
        written_rows(pixels@, bytes_per_row as nat, bytes_per_pixel(texture.format) * (width as nat), height as nat),
    );
}

/// What uploading pixels of this size to a device with this limit gives: a
/// texture of that size, format and usages when the size is right, and else
/// why not.
pub open spec fn texture_outcome(
    limit: nat,
    width: u32,
    height: u32,
    res: Result<GpuTexture, TextureSizeError>,
) -> bool {
    match res {
        Ok(t) => texture_size_ok(limit, width, height) && t.spec_width() == width && t.spec_height()
            == height && t.spec_format() == PixelFormat::Rgba8UnormSrgb && t.spec_usage()
            == LOADED_TEXTURE_USAGE,
        Err(e) => texture_size_check(limit, width, height) == Err::<(), TextureSizeError>(e),
    }
}

/// Why image bytes cannot become a texture.
pub enum TextureLoadFailure {
    /// The bytes are no image `image` decodes.
    Decode(anyhow::Error),
    /// The decoded image cannot become a texture of the device.
    Size(TextureSizeError),
}

impl DataLoader {
    /// The device the data is loaded into.
    pub closed spec fn spec_device(&self) -> GpuDevice {
        self.device
    }

    /// The queue the data is uploaded through.
    pub closed spec fn spec_queue(&self) -> GpuQueue {
        self.upload_queue
    }

    /// A loader into `device` through `upload_queue`, a queue of that device.
    pub fn new(device: GpuDevice, upload_queue: GpuQueue) -> (res: Self)
        requires
            upload_queue.spec_device_id() == device.spec_id(),
        ensures
            res.spec_device() == device,
            res.spec_queue() == upload_queue,
    {
        DataLoader { device, upload_queue }
    }

    /// The device the data is loaded into.
    pub fn device(&self) -> (res: &GpuDevice)
        ensures
            *res == self.spec_device(),
    {
        &self.device
    }

    /// The queue the data is uploaded through.
    pub fn queue(&self) -> (res: &wgpu::Queue)
        ensures
            *res == self.spec_queue().spec_raw(),
    {
        self.upload_queue.raw()
    }

    /// Writes `data` into `buf`, a buffer of the loader's device, at
    /// `offset`.
    pub fn write_buffer(&self, buf: &mut GpuBuffer, offset: u64, data: &[u8])
        requires
            old(buf).spec_device_id() == self.spec_device().spec_id(),
            offset % 4 == 0,
            data@.len() % 4 == 0,
            offset + data@.len() <= old(buf).spec_size(),
            old(buf).spec_usage() & USAGE_COPY_DST != 0,
        ensures
            final(buf).spec_contents() == overwrite(old(buf).spec_contents(), offset as int, data@),
            final(buf).spec_size() == old(buf).spec_size(),
            final(buf).spec_usage() == old(buf).spec_usage(),
            final(buf).spec_raw() == old(buf).spec_raw(),
            final(buf).spec_device_id() == old(buf).spec_device_id(),
    {
        proof {
            use_type_invariant(self);
        }
        queue_write_buffer(&self.upload_queue, buf, offset, data)
    }

    /// Uploads an image as an sRGB RGBA texture of its size, bound for
    /// sampling and written into. Images with no pixels, or larger than the
    /// device makes textures, are refused.
    pub fn load_texture(&self, texture: &RgbaImage) -> (res: Result<GpuTexture, TextureSizeError>)
        ensures
            texture_outcome(
                self.spec_device().spec_max_texture_dimension_2d(),
                texture.spec_width(),
                texture.spec_height(),
                res,
            ),
            res matches Ok(t) ==> t.spec_device_id() == self.spec_device().spec_id(),
            res matches Ok(t) ==> t.spec_contents() == texture.spec_pixels().take(
                4 * texture.spec_width() * texture.spec_height(),
            ),
    {
        proof {
            use_type_invariant(texture);
        }
        self.load_rgba_pixels(texture.pixels.as_slice(), texture.width, texture.height)
    }

    /// Decodes image bytes with `image::load_from_memory` and uploads the
    /// image, converted to RGBA8, as `load_texture` does. Bytes that decode
    /// to no image are refused, and so are images that cannot become a
    /// texture.
    pub fn load_texture_bytes(&self, bytes: &[u8]) -> (res: Result<GpuTexture, TextureLoadFailure>)
        ensures
            rgba8_decoded(bytes@) is None <==> res matches Err(TextureLoadFailure::Decode(_)),
            rgba8_decoded(bytes@) matches Some((pixels, width, height)) ==> match res {
                Ok(t) => texture_size_ok(self.spec_device().spec_max_texture_dimension_2d(), width, height)
                    && t.spec_width() == width && t.spec_height() == height && t.spec_format()
                    == PixelFormat::Rgba8UnormSrgb && t.spec_usage() == LOADED_TEXTURE_USAGE
                    && t.spec_device_id() == self.spec_device().spec_id() && t.spec_contents()
                    == pixels.take(4 * width * height),
                Err(TextureLoadFailure::Size(e)) => texture_size_check(
                    self.spec_device().spec_max_texture_dimension_2d(),
                    width,
                    height,
                ) == Err::<(), TextureSizeError>(e),
                Err(TextureLoadFailure::Decode(_)) => false,
            },
    {
        match decode_rgba8(bytes) {
            Err(e) => Err(TextureLoadFailure::Decode(e)),
            Ok((pixels, width, height)) => match self.load_rgba_pixels(pixels.as_slice(), width, height) {
                Ok(t) => Ok(t),
                Err(e) => Err(TextureLoadFailure::Size(e)),
            },
        }
    }

    /// Uploads `width` by `height` RGBA pixels, 4 bytes each, row by row, as
    /// an sRGB RGBA texture bound for sampling and written into. Sizes with
    /// no pixels, or larger than the device makes textures, are refused.
    pub fn load_rgba_pixels(&self, pixels: &[u8], width: u32, height: u32) -> (res: Result<
        GpuTexture,
        TextureSizeError,
    >)
        requires
            pixels@.len() >= 4 * width * height,
        ensures
            texture_outcome(self.spec_device().spec_max_texture_dimension_2d(), width, height, res),
            res matches Ok(t) ==> t.spec_device_id() == self.spec_device().spec_id(),
            res matches Ok(t) ==> t.spec_contents() == pixels@.take(4 * width * height),
    {
        proof {
            use_type_invariant(self);
        }
        match check_texture_size(self.device.max_texture_dimension_2d(), width, height) {
            Ok(()) => {},
            Err(e) => {
                return Err(e);
            },
        }
        proof {
            assert(6u32 != 0 && 6u32 & 23u32 == 6u32) by (bit_vector);
        }
        let mut gpu_texture = create_texture_2d(
            &self.device,
            width,
            height,
            PixelFormat::Rgba8UnormSrgb,
            LOADED_TEXTURE_USAGE,
        );
        // Rows of 4-byte pixels, one right after the other
        let bytes_per_row = 4 * width;
        proof {
            assert(LOADED_TEXTURE_USAGE & TEXTURE_USAGE_COPY_DST != 0) by (bit_vector);
        }
        queue_write_texture(&self.upload_queue, &mut gpu_texture, pixels, bytes_per_row);
        proof {
            let row = 4 * width as int;
            assert(4 * width * height == row * height) by (nonlinear_arith)
                requires
                    row == 4 * width,
            ;
            assert forall|i: int| 0 <= i < row * height implies #[trigger] gpu_texture.spec_contents()[i]
                == pixels@[i] by {
                lemma_fundamental_div_mod(i, row);
                assert((i / row) * row == row * (i / row)) by (nonlinear_arith);
            }
            assert(gpu_texture.spec_contents() =~= pixels@.take(4 * width * height));
        }
        Ok(gpu_texture)
    }

    /// Copies `size` bytes between two buffers of the loader's device and
    /// waits for the copy to complete: the destination then holds the
    /// source's bytes at `offset_dest`. Nothing is done for an empty copy. It
    /// fails only when the device does not report the copy done.
    pub fn copy_from_buffer_to_buffer(
        &self,
        src: &GpuBuffer,
        dest: &mut GpuBuffer,
        offset_src: u64,
        offset_dest: u64,
        size: u64,
    ) -> (res: Result<(), WaitError>)
        requires
            src.spec_device_id() == self.spec_device().spec_id(),
            old(dest).spec_device_id() == self.spec_device().spec_id(),
            size == 0 || copy_aligned(offset_src, offset_dest, size),
            size == 0 || copy_in_bounds(*src, *old(dest), offset_src, offset_dest, size),
        ensures
            size == 0 ==> res is Ok && *final(dest) == *old(dest),
            size > 0 ==> final(dest).spec_contents() == copied(
                *src,
                *old(dest),
                offset_src,
                offset_dest,
                size,
            ),
            final(dest).spec_size() == old(dest).spec_size(),
            final(dest).spec_usage() == old(dest).spec_usage(),
            final(dest).spec_raw() == old(dest).spec_raw(),
            final(dest).spec_device_id() == old(dest).spec_device_id(),
    {
        proof {
            use_type_invariant(self);
        }
        if size == 0 {
            return Ok(());
        }
        let id = submit_buffer_copy(
            &self.device,
            &self.upload_queue,
            src,
            dest,
            offset_src,
            offset_dest,
            size,
        );
        wait_device(self.device.raw(), id)
    }
}

/// A read right after a write gives back what was written, and every byte
/// outside the written range keeps what it held.
pub proof fn law_read_after_write(bytes: Seq<u8>, at: int, data: Seq<u8>)
    requires
        0 <= at,
        at + data.len() <= bytes.len(),
    ensures
        overwrite(bytes, at, data).len() == bytes.len(),
        overwrite(bytes, at, data).subrange(at, at + data.len()) == data,
        forall|i: int|
            0 <= i < bytes.len() && !(at <= i < at + data.len()) ==> #[trigger] overwrite(
                bytes,
                at,
                data,
            )[i] == bytes[i],
{
    let w = overwrite(bytes, at, data);
    assert(w.subrange(at, at + data.len()) =~= data);
}

} // verus!
