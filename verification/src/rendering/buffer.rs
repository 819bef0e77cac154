//! A typed, growable GPU buffer, used much like a `Vec`.

use std::marker::PhantomData;

use vstd::prelude::*;

use crate::rendering::data_loader::{overwrite, DataLoader, GpuDevice};
use crate::rendering::util::WaitError;
use crate::util::pow2::{
    is_power_of_two, lemma_next_pow2, lemma_pow2_is_own_next, next_pow2, next_power_of_two,
};
verus! {

/// Buffer usage bits, as `wgpu::BufferUsages` numbers them.
pub const USAGE_COPY_SRC: u32 = 4;

pub const USAGE_COPY_DST: u32 = 8;

pub const USAGE_INDEX: u32 = 16;

pub const USAGE_VERTEX: u32 = 32;

pub const USAGE_UNIFORM: u32 = 64;

pub const USAGE_STORAGE: u32 = 128;

pub const USAGE_INDIRECT: u32 = 256;

/// Starting capacity of a buffer, in elements: copying a buffer into a larger
/// one is costly, so buffers start large.
pub const DEFAULT_INITIAL_CAPACITY: usize = 64;

/// What a buffer is used for.
#[derive(Clone, Copy, PartialEq, Eq, Debug, Structural)]
pub enum BufferKind {
    Index,
    Vertex,
    Uniform,
    Storage,
    Indirect,
}

/// The usage bits of a buffer of the given kind: it can always be copied to
/// and from.
pub open spec fn kind_usage(kind: BufferKind) -> u32 {
    USAGE_COPY_DST | USAGE_COPY_SRC | match kind {
        BufferKind::Index => USAGE_INDEX,
        BufferKind::Vertex => USAGE_VERTEX,
        BufferKind::Uniform => USAGE_UNIFORM,
        BufferKind::Storage => USAGE_STORAGE,
        BufferKind::Indirect => USAGE_INDIRECT,
    }
}

/// The usage bits of a buffer of the given kind.
pub fn usage_bits(kind: BufferKind) -> (res: u32)
    ensures
        res == kind_usage(kind),
{
    let usage = USAGE_COPY_DST | USAGE_COPY_SRC;
    match kind {
        BufferKind::Index => usage | USAGE_INDEX,
        BufferKind::Vertex => usage | USAGE_VERTEX,
        BufferKind::Uniform => usage | USAGE_UNIFORM,
        BufferKind::Storage => usage | USAGE_STORAGE,
        BufferKind::Indirect => usage | USAGE_INDIRECT,
    }
}

/// What a buffer of `kind` asks of the device: indirect buffers need a device
/// that runs indirect draws.
pub open spec fn kind_allowed(device: GpuDevice, kind: BufferKind) -> bool {
    kind != BufferKind::Indirect || device.spec_indirect_execution()
}

/// Usage bits the device takes for a buffer: copying plus one use, and the
/// indirect use only on a device that runs indirect draws.
pub open spec fn usage_ok(device: GpuDevice, usage: u32) -> bool {
    ||| usage == kind_usage(BufferKind::Index)
    ||| usage == kind_usage(BufferKind::Vertex)
    ||| usage == kind_usage(BufferKind::Uniform)
    ||| usage == kind_usage(BufferKind::Storage)
    ||| usage == kind_usage(BufferKind::Indirect) && device.spec_indirect_execution()
}

/// A GPU buffer, with the size and usage it was created with, and the bytes
/// it holds as the GPU sees them once the queued work runs.
pub struct GpuBuffer {
    raw: wgpu::Buffer,
    size: u64,
    usage: u32,
    contents: Ghost<Seq<u8>>,
    device_id: Ghost<wgpu::Device>,
}

impl GpuBuffer {
    /// The buffer holds a byte for each byte of its size. Every buffer is
    /// so; `use_type_invariant` hands this out.
    #[verifier::type_invariant]
    pub open spec fn contents_fill_size(&self) -> bool {
        self.spec_contents().len() == self.spec_size()
    }

    /// Size of the buffer in bytes.
    pub closed spec fn spec_size(&self) -> nat {
        self.size as nat
    }

    /// Usage bits of the buffer.
    pub closed spec fn spec_usage(&self) -> u32 {
        self.usage
    }

    /// The bytes the buffer holds.
    pub closed spec fn spec_contents(&self) -> Seq<u8> {
        self.contents@
    }

    /// The wgpu buffer.
    pub closed spec fn spec_raw(&self) -> wgpu::Buffer {
        self.raw
    }

    /// The identity of the device the buffer is on.
    pub closed spec fn spec_device_id(&self) -> wgpu::Device {
        self.device_id@
    }

    /// Size of the buffer in bytes.
    pub fn size(&self) -> (res: u64)
        ensures
            res == self.spec_size(),
    {
        self.size
    }

    /// Usage bits of the buffer.
    pub fn usage(&self) -> (res: u32)
        ensures
            res == self.spec_usage(),
    {
        self.usage
    }

    /// The wgpu buffer.
    pub fn raw(&self) -> (res: &wgpu::Buffer)
        ensures
            *res == self.spec_raw(),
    {
        &self.raw
    }
}

/// Calls `wgpu::Device::create_buffer` for an unmapped, unlabeled buffer of
/// `size` bytes with the usage `wgpu::BufferUsages::from_bits_truncate(usage)`.
/// wgpu refuses buffers larger than the device's `max_buffer_size`, empty or
/// mapping usages, index usage mixed with other uses on some devices, and
/// indirect usage on devices that do not run indirect draws; the contract
/// takes only sizes within the limit `GpuDevice` read from the device and
/// usages made of copying and one use. Running out of GPU memory, which wgpu
/// also reports, depends on the machine and is not excluded. The result keeps
/// the size and usage it was asked for, as `wgpu::Buffer::size` and `usage`
/// report them, and holds `size` bytes, all zero (wgpu zeroes every new
/// buffer).
#[verifier::external_body]
fn create_gpu_buffer(device: &GpuDevice, size: u64, usage: u32) -> (res: GpuBuffer)
    requires
        size <= device.spec_max_buffer_size(),
        usage_ok(*device, usage),
    ensures
        res.spec_size() == size,
        res.spec_usage() == usage,
        res.spec_contents() == Seq::new(size as nat, |i: int| 0u8),
        res.spec_device_id() == device.spec_id(),
{
    let raw = device.raw().create_buffer(
        &wgpu::BufferDescriptor {
            label: None,
            size,
            usage: wgpu::BufferUsages::from_bits_truncate(usage),
            mapped_at_creation: false,
        },
    );
    GpuBuffer { raw, size, usage, contents: Ghost(Seq::new(size as nat, |i: int| 0u8)), device_id: Ghost(device.spec_id()) }
}

/// Calls `wgpu::Buffer::destroy`, which frees the GPU memory of the buffer.
#[verifier::external_body]
fn destroy_gpu_buffer(buf: GpuBuffer) {
    buf.raw.destroy()
}

/// A part of a GPU buffer, with where it starts and how long it is, as wgpu
/// reports them.
pub struct GpuSlice<'a> {
    raw: wgpu::BufferSlice<'a>,
    offset: u64,
    size: u64,
}

impl<'a> GpuSlice<'a> {
    /// Where the part starts in its buffer, in bytes.
    pub closed spec fn spec_offset(&self) -> nat {
        self.offset as nat
    }

    /// Length of the part, in bytes.
    pub closed spec fn spec_size(&self) -> nat {
        self.size as nat
    }

    /// The wgpu slice.
    pub closed spec fn spec_raw(&self) -> wgpu::BufferSlice<'a> {
        self.raw
    }

    /// The wgpu slice.
    pub fn into_raw(self) -> (res: wgpu::BufferSlice<'a>)
        ensures
            res == self.spec_raw(),
    {
        self.raw
    }
}

/// Calls `wgpu::Buffer::slice` for the bytes `start..end`, which panics
/// outside the buffer; the contract leaves that out. The slice's `offset` and
/// `size` are read back from it: wgpu makes them `start` and `end - start`
/// for such a range, which the contract claims.
#[verifier::external_body]
fn slice_gpu_buffer(buf: &GpuBuffer, start: u64, end: u64) -> (res: GpuSlice<'_>)
    requires
        start <= end <= buf.spec_size(),
    ensures
        res.spec_offset() == start,
        res.spec_size() == end - start,
{
    let raw = buf.raw.slice(start..end);
    GpuSlice { offset: raw.offset(), size: raw.size(), raw }
}

/// Calls `bytemuck::cast_slice` to view the elements as bytes, which for a
/// byte target never panics and gives `size_of::<T>()` bytes per element.
#[verifier::external_body]
fn as_bytes<T: bytemuck::Pod>(data: &[T]) -> (res: &[u8])
    ensures
        res@.len() == data@.len() * vstd::layout::size_of::<T>(),
{
    bytemuck::cast_slice(data)
}

/// Calls `bytemuck::bytes_of`, which gives the `size_of::<T>()` bytes of the
/// value.
#[verifier::external_body]
fn value_bytes<T: bytemuck::Pod>(data: &T) -> (res: &[u8])
    ensures
        res@.len() == vstd::layout::size_of::<T>(),
{
    bytemuck::bytes_of(data)
}

/// A binding of a GPU buffer for a bind group, with its offset and size as
/// wgpu holds them; no size means up to the end of the buffer.
pub struct GpuBinding<'a> {
    raw: wgpu::BufferBinding<'a>,
    offset: u64,
    size: Option<u64>,
}

impl<'a> GpuBinding<'a> {
    /// Where the binding starts in its buffer, in bytes.
    pub closed spec fn spec_offset(&self) -> nat {
        self.offset as nat
    }

    /// Length of the binding in bytes; `None` when it runs to the buffer's end.
    pub closed spec fn spec_size(&self) -> Option<u64> {
        self.size
    }

    /// The wgpu binding.
    pub closed spec fn spec_raw(&self) -> wgpu::BufferBinding<'a> {
        self.raw
    }

    /// The wgpu binding, to be put in a `wgpu::BindingResource::Buffer`.
    pub fn into_raw(self) -> (res: wgpu::BufferBinding<'a>)
        ensures
            res == self.spec_raw(),
    {
        self.raw
    }
}

/// Calls `wgpu::Buffer::as_entire_buffer_binding`, the whole buffer as a
/// binding, and reads back its offset and size. wgpu builds it with offset 0
/// and no size (up to the end), which the contract claims.
#[verifier::external_body]
fn binding_of(buf: &GpuBuffer) -> (res: GpuBinding<'_>)
    ensures
        res.spec_offset() == 0,
        res.spec_size() is None,
{
    let raw = buf.raw.as_entire_buffer_binding();
    let size = match raw.size {
        Some(s) => Some(s.get()),
        None => None,
    };
    GpuBinding { offset: raw.offset, size, raw }
}

/// The size of an element, in bytes.
pub open spec fn elem_size<T>() -> nat {
    vstd::layout::size_of::<T>()
}

/// Whether a buffer of `kind` for `capacity` elements, rounded up to a power
/// of two, can be created on the device.
pub open spec fn can_allocate<T>(device: GpuDevice, kind: BufferKind, capacity: nat) -> bool {
    &&& next_pow2(capacity) <= usize::MAX
    &&& next_pow2(capacity) * elem_size::<T>() <= usize::MAX
    &&& next_pow2(capacity) * elem_size::<T>() <= device.spec_max_buffer_size()
    &&& kind_allowed(device, kind)
}

/// One end of a range of elements, as `std::ops::Bound` has it.
#[derive(Clone, Copy, PartialEq, Eq, Debug, Structural)]
pub enum ElementBound {
    Included(usize),
    Excluded(usize),
    Unbounded,
}

/// The memory of a buffer: the GPU buffer and how many elements it holds.
struct Storage {
    buf: GpuBuffer,
    capacity: usize,
}

/// A GPU buffer of elements of type `T`, used much like a `Vec`: its length
/// counts the elements written, its capacity the elements it has room for,
/// and its buffer grows, to a power of two of elements, as needed. Element
/// `i` is held in bytes `i * size_of::<T>()` to `(i + 1) * size_of::<T>()`.
///
/// The data loader given to its methods must load into the device the buffer
/// was created with.
pub struct VecBuf<T> {
    mem: Storage,
    device: GpuDevice,
    len: usize,
    _phantom: PhantomData<T>,
}

impl<T> VecBuf<T> {
    /// The buffer has room for `capacity` elements and no more, at least the
    /// written ones, and can be copied to and from. Every buffer the library
    /// makes is so, and every method keeps it so.
    pub closed spec fn wf(&self) -> bool {
        &&& self.mem.buf.spec_size() == self.mem.capacity * elem_size::<T>()
        &&& self.mem.capacity * elem_size::<T>() <= usize::MAX
        &&& self.mem.buf.spec_contents().len() == self.mem.buf.spec_size()
        &&& self.mem.buf.spec_device_id() == self.device.spec_id()
        &&& self.len <= self.mem.capacity
        &&& usage_ok(self.device, self.mem.buf.spec_usage())
        &&& self.mem.buf.spec_usage() & USAGE_COPY_SRC != 0
        &&& self.mem.buf.spec_usage() & USAGE_COPY_DST != 0
    }

    /// Number of elements written.
    pub closed spec fn spec_len(&self) -> nat {
        self.len as nat
    }

    /// Number of elements the buffer has room for.
    pub closed spec fn spec_capacity(&self) -> nat {
        self.mem.capacity as nat
    }

    /// Usage bits of the buffer.
    pub closed spec fn spec_usage(&self) -> u32 {
        self.mem.buf.spec_usage()
    }

    /// The bytes the buffer holds, `size_of::<T>()` per element of its
    /// capacity.
    pub closed spec fn spec_bytes(&self) -> Seq<u8> {
        self.mem.buf.spec_contents()
    }

    /// The device the buffer is on.
    pub closed spec fn spec_device(&self) -> GpuDevice {
        self.device
    }

    /// The bytes of the first `count` elements.
    pub open spec fn elements_bytes(&self, count: nat) -> Seq<u8> {
        self.spec_bytes().take((count * elem_size::<T>()) as int)
    }

    /// What the capacity becomes when at least `min_capacity` elements are
    /// asked for: the buffer is replaced when it has less room.
    pub open spec fn grown_capacity(&self, min_capacity: nat) -> nat {
        if min_capacity <= self.spec_capacity() {
            self.spec_capacity()
        } else {
            next_pow2(min_capacity)
        }
    }

    /// Whether the buffer can be replaced by one for `capacity` elements,
    /// rounded up to a power of two: the new buffer can be created, holds the
    /// written elements, and the copy of the old contents into it is aligned.
    pub open spec fn can_reallocate(&self, capacity: nat) -> bool {
        &&& self.spec_len() <= capacity
        &&& next_pow2(capacity) <= usize::MAX
        &&& next_pow2(capacity) * elem_size::<T>() <= usize::MAX
        &&& next_pow2(capacity) * elem_size::<T>() <= self.spec_device().spec_max_buffer_size()
        &&& (if self.spec_capacity() <= next_pow2(capacity) {
            self.spec_capacity()
        } else {
            next_pow2(capacity)
        }) * elem_size::<T>() % 4 == 0
    }

    /// Whether the buffer can be made to hold at least `min_capacity`
    /// elements.
    pub open spec fn can_grow(&self, min_capacity: nat) -> bool {
        min_capacity <= self.spec_capacity() || self.can_reallocate(min_capacity)
    }

    /// An empty buffer of `kind` with room for `capacity` elements, rounded up
    /// to a power of two.
    pub fn new_with_initial_capacity(device: GpuDevice, kind: BufferKind, capacity: usize) -> (res:
        Self)
        requires
            can_allocate::<T>(device, kind, capacity as nat),
        ensures
            res.wf(),
            res.spec_len() == 0,
            res.spec_capacity() == next_pow2(capacity as nat),
            res.spec_usage() == kind_usage(kind),
            res.spec_device() == device,
            res.spec_bytes().len() == res.spec_capacity() * elem_size::<T>(),
    {
        let usage = usage_bits(kind);
        let mut capacity = capacity;
        proof {
            lemma_next_pow2(capacity as nat);
        }
        if !is_power_of_two(capacity) {
            capacity = next_power_of_two(capacity);
        } else {
            proof {
                lemma_pow2_is_own_next(capacity as nat);
            }
        }
        let bytes = capacity * std::mem::size_of::<T>();
        proof {
            lemma_kind_usage_copies(kind);
        }
        let buf = create_gpu_buffer(&device, bytes as u64, usage);
        VecBuf { mem: Storage { buf, capacity }, len: 0, _phantom: PhantomData, device }
    }

    /// An empty buffer of `kind` with the default capacity.
    pub fn new(device: GpuDevice, kind: BufferKind) -> (res: Self)
        requires
            can_allocate::<T>(device, kind, DEFAULT_INITIAL_CAPACITY as nat),
        ensures
            res.wf(),
            res.spec_len() == 0,
            res.spec_capacity() == DEFAULT_INITIAL_CAPACITY,
            res.spec_usage() == kind_usage(kind),
            res.spec_device() == device,
            res.spec_bytes().len() == DEFAULT_INITIAL_CAPACITY * elem_size::<T>(),
    {
        proof {
            vstd::arithmetic::power2::lemma2_to64();
            assert(vstd::arithmetic::power2::pow2(6) == 64);
            assert(crate::util::pow2::is_pow2(64));
            lemma_pow2_is_own_next(64);
        }
        Self::new_with_initial_capacity(device, kind, DEFAULT_INITIAL_CAPACITY)
    }

    /// Number of elements the buffer has room for.
    pub fn capacity(&self) -> (res: usize)
        ensures
            res == self.spec_capacity(),
    {
        self.mem.capacity
    }

    /// Number of elements written.
    pub fn len(&self) -> (res: usize)
        ensures
            res == self.spec_len(),
    {
        self.len
    }

    /// A well-formed buffer holds `size_of::<T>()` bytes for each element it
    /// has room for.
    pub proof fn lemma_bytes_fill_capacity(&self)
        requires
            self.wf(),
        ensures
            self.spec_bytes().len() == self.spec_capacity() * elem_size::<T>(),
    {
    }

    /// The device the buffer is on.
    pub fn device(&self) -> (res: &GpuDevice)
        ensures
            *res == self.spec_device(),
    {
        &self.device
    }

    /// Forgets every element; the buffer keeps its room and bytes.
    pub fn clear(&mut self)
        requires
            old(self).wf(),
        ensures
            final(self).wf(),
            final(self).spec_len() == 0,
            final(self).spec_capacity() == old(self).spec_capacity(),
            final(self).spec_usage() == old(self).spec_usage(),
            final(self).spec_bytes() == old(self).spec_bytes(),
            final(self).spec_device() == old(self).spec_device(),
    {
        self.len = 0;
    }
}

/// Every kind of buffer can be copied to and from.
proof fn lemma_kind_usage_copies(kind: BufferKind)
    ensures
        kind_usage(kind) & USAGE_COPY_SRC != 0,
        kind_usage(kind) & USAGE_COPY_DST != 0,
{
    let u = kind_usage(kind);
    let k: u32 = match kind {
        BufferKind::Index => USAGE_INDEX,
        BufferKind::Vertex => USAGE_VERTEX,
        BufferKind::Uniform => USAGE_UNIFORM,
        BufferKind::Storage => USAGE_STORAGE,
        BufferKind::Indirect => USAGE_INDIRECT,
    };
    assert(u == 8u32 | 4u32 | k);
    assert((8u32 | 4u32 | k) & 4u32 != 0 && (8u32 | 4u32 | k) & 8u32 != 0) by (bit_vector);
}

/// The first element a range starts at.
pub open spec fn range_start(start: ElementBound) -> int {
    match start {
        ElementBound::Unbounded => 0,
        ElementBound::Excluded(i) => i + 1,
        ElementBound::Included(i) => i as int,
    }
}

/// The element a range ends before, for a buffer of `len` elements.
pub open spec fn range_end(end: ElementBound, len: nat) -> int {
    match end {
        ElementBound::Unbounded => len as int,
        ElementBound::Excluded(i) => i as int,
        ElementBound::Included(i) => i + 1,
    }
}

/// The elements `start..end` a range of a buffer of `len` elements covers.
pub fn element_range(start: ElementBound, end: ElementBound, len: usize) -> (res: (usize, usize))
    requires
        0 <= range_start(start) <= usize::MAX,
        0 <= range_end(end, len as nat) <= usize::MAX,
    ensures
        res.0 == range_start(start),
        res.1 == range_end(end, len as nat),
{
    let s = match start {
        ElementBound::Unbounded => 0,
        ElementBound::Excluded(i) => i + 1,
        ElementBound::Included(i) => i,
    };
    let e = match end {
        ElementBound::Unbounded => len,
        ElementBound::Excluded(i) => i,
        ElementBound::Included(i) => i + 1,
    };
    (s, e)
}

/// `a * s <= b * s` for `a <= b`.
proof fn lemma_mul_le(a: nat, b: nat, s: nat)
    requires
        a <= b,
    ensures
        a * s <= b * s,
{
    assert(a * s <= b * s) by (nonlinear_arith)
        requires
            a <= b,
    ;
}

impl<T> VecBuf<T> {
    /// Whether the range, in elements, lies within the written elements.
    pub open spec fn can_slice(&self, start: ElementBound, end: ElementBound) -> bool {
        &&& 0 <= range_start(start)
        &&& range_start(start) <= range_end(end, self.spec_len())
        &&& range_end(end, self.spec_len()) <= self.spec_len()
    }

    /// The part of the buffer holding the elements of the range: it starts at
    /// the range's first element and spans its elements, in bytes. The slice
    /// is for reading only.
    pub fn slice(&self, start: ElementBound, end: ElementBound) -> (res: GpuSlice<'_>)
        requires
            self.wf(),
            self.can_slice(start, end),
        ensures
            res.spec_offset() == range_start(start) * elem_size::<T>(),
            res.spec_size() == (range_end(end, self.spec_len()) - range_start(start)) * elem_size::<T>(),
    {
        let (s, e) = element_range(start, end, self.len);
        let size = std::mem::size_of::<T>();
        proof {
            lemma_mul_le(s as nat, e as nat, size as nat);
            lemma_mul_le(e as nat, self.mem.capacity as nat, size as nat);
            assert((e - s) * size == e * size - s * size) by (nonlinear_arith);
        }
        slice_gpu_buffer(&self.mem.buf, (s * size) as u64, (e * size) as u64)
    }

    /// The whole buffer as a binding of a bind group: from its start to its
    /// end.
    pub fn as_binding(&self) -> (res: GpuBinding<'_>)
        ensures
            res.spec_offset() == 0,
            res.spec_size() is None,
    {
        binding_of(&self.mem.buf)
    }

    /// Replaces the buffer by one for `new_capacity` elements, rounded up to
    /// a power of two, and copies into it as much of the old contents as
    /// fits (the written elements always do). It fails only when the device
    /// does not report the copy done; the buffer is replaced either way.
    fn resize_capacity_possibly_drop_data(&mut self, data_loader: &DataLoader, new_capacity: usize) -> (res:
        Result<(), WaitError>)
        requires
            data_loader.spec_device().spec_id() == old(self).spec_device().spec_id(),
            old(self).wf(),
            old(self).can_reallocate(new_capacity as nat),
        ensures
            final(self).wf(),
            final(self).spec_capacity() == next_pow2(new_capacity as nat),
            final(self).spec_len() == old(self).spec_len(),
            final(self).spec_usage() == old(self).spec_usage(),
            final(self).spec_device() == old(self).spec_device(),
            res is Ok ==> final(self).elements_bytes(old(self).spec_len()) == old(self).elements_bytes(
                old(self).spec_len(),
            ),
    {
        proof {
                        lemma_next_pow2(new_capacity as nat);
        }
        let mut capacity = new_capacity;
        if !is_power_of_two(capacity) {
            capacity = next_power_of_two(capacity);
        } else {
            proof {
                lemma_pow2_is_own_next(capacity as nat);
            }
        }
        let size = std::mem::size_of::<T>();
        let bytes = capacity * size;
        let new_buf = create_gpu_buffer(&self.device, bytes as u64, self.mem.buf.usage());
        let mut new_mem = Storage { buf: new_buf, capacity };
        let kept = if self.mem.capacity <= capacity {
            self.mem.capacity
        } else {
            capacity
        };
        proof {
            lemma_mul_le(kept as nat, self.mem.capacity as nat, size as nat);
            lemma_mul_le(kept as nat, capacity as nat, size as nat);
            lemma_mul_le(self.len as nat, kept as nat, size as nat);
        }
        let copy_size = kept * size;
        let ghost before = self.mem.buf.spec_contents();
        proof {
            crate::rendering::data_loader::law_read_after_write(
                new_mem.buf.spec_contents(),
                0,
                before.subrange(0, copy_size as int),
            );
        }
        let res = data_loader.copy_from_buffer_to_buffer(
            &self.mem.buf,
            &mut new_mem.buf,
            0,
            0,
            copy_size as u64,
        );
        proof {
            let n = self.len * size;
            if res is Ok && copy_size > 0 {
                assert(new_mem.buf.spec_contents().take(n as int) =~= before.take(n as int));
            }
            if copy_size == 0 {
                assert(n == 0);
            }
        }
        std::mem::swap(&mut self.mem, &mut new_mem);
        destroy_gpu_buffer(new_mem.buf);
        proof {
            if copy_size == 0 {
                assert(self.mem.buf.spec_contents().take(0) =~= before.take(0));
            }
        }
        res
    }

    /// Makes sure the buffer has room for at least `min_capacity` elements,
    /// replacing it when it has less.
    fn check_capacity(&mut self, data_loader: &DataLoader, min_capacity: usize) -> (res: Result<(), WaitError>)
        requires
            data_loader.spec_device().spec_id() == old(self).spec_device().spec_id(),
            old(self).wf(),
            old(self).can_grow(min_capacity as nat),
        ensures
            final(self).wf(),
            final(self).spec_capacity() == old(self).grown_capacity(min_capacity as nat),
            final(self).spec_len() == old(self).spec_len(),
            final(self).spec_usage() == old(self).spec_usage(),
            final(self).spec_device() == old(self).spec_device(),
            min_capacity <= old(self).spec_capacity() ==> res is Ok && *final(self) == *old(self),
            res is Ok ==> final(self).elements_bytes(old(self).spec_len()) == old(self).elements_bytes(
                old(self).spec_len(),
            ),
    {
        if min_capacity <= self.capacity() {
            return Ok(());
        }
        self.resize_capacity_possibly_drop_data(data_loader, min_capacity)
    }

    /// Shrinks the buffer to the smallest power of two of elements that holds
    /// the written ones, keeping them.
    pub fn compact(&mut self, data_loader: &DataLoader) -> (res: Result<(), WaitError>)
        requires
            data_loader.spec_device().spec_id() == old(self).spec_device().spec_id(),
            old(self).wf(),
            old(self).can_reallocate(old(self).spec_len()),
        ensures
            final(self).wf(),
            final(self).spec_capacity() == next_pow2(old(self).spec_len()),
            final(self).spec_len() == old(self).spec_len(),
            final(self).spec_usage() == old(self).spec_usage(),
            final(self).spec_device() == old(self).spec_device(),
            res is Ok ==> final(self).elements_bytes(old(self).spec_len()) == old(self).elements_bytes(
                old(self).spec_len(),
            ),
    {
        let len = self.len;
        self.resize_capacity_possibly_drop_data(data_loader, len)
    }

    /// Sets the number of elements, growing the buffer when it has less
    /// room. The elements kept keep their bytes; new elements hold
    /// meaningless (but valid) bytes until written; shrinking keeps the
    /// buffer.
    pub fn resize(&mut self, data_loader: &DataLoader, new_len: usize) -> (res: Result<(), WaitError>)
        requires
            data_loader.spec_device().spec_id() == old(self).spec_device().spec_id(),
            old(self).wf(),
            old(self).can_grow(new_len as nat),
        ensures
            final(self).wf(),
            final(self).spec_capacity() == old(self).grown_capacity(new_len as nat),
            final(self).spec_usage() == old(self).spec_usage(),
            final(self).spec_device() == old(self).spec_device(),
            res is Ok ==> final(self).spec_len() == new_len,
            res is Err ==> final(self).spec_len() == old(self).spec_len(),
            res is Ok ==> final(self).elements_bytes(
                if new_len <= old(self).spec_len() {
                    new_len as nat
                } else {
                    old(self).spec_len()
                },
            ) == old(self).elements_bytes(
                if new_len <= old(self).spec_len() {
                    new_len as nat
                } else {
                    old(self).spec_len()
                },
            ),
            new_len <= old(self).spec_capacity() ==> res is Ok,
    {
        let ghost old_len = self.len as nat;
        let ghost old_bytes = self.spec_bytes();
        match self.check_capacity(data_loader, new_len) {
            Ok(()) => {},
            Err(e) => {
                return Err(e);
            },
        }
        proof {
                        let sz = elem_size::<T>();
            let k: nat = if new_len <= old_len { new_len as nat } else { old_len };
            lemma_mul_le(k, old_len, sz);
            lemma_next_pow2(new_len as nat);
            lemma_mul_le(old_len, self.mem.capacity as nat, sz);
            assert(self.spec_bytes().take((k * sz) as int) =~= self.spec_bytes().take((old_len * sz) as int).take((k * sz) as int));
            assert(old_bytes.take((k * sz) as int) =~= old_bytes.take((old_len * sz) as int).take((k * sz) as int));
        }
        self.len = new_len;
        Ok(())
    }
}

impl<T> VecBuf<T> {
    /// Appends `count` elements given as their `bytes`, growing the buffer
    /// when it has no room for them: the bytes of the elements are then the
    /// old elements' bytes followed by `bytes`.
    pub fn extend_from_bytes(&mut self, data_loader: &DataLoader, count: usize, bytes: &[u8]) -> (res: Result<
        (),
        WaitError,
    >)
        requires
            old(self).wf(),
            data_loader.spec_device().spec_id() == old(self).spec_device().spec_id(),
            bytes@.len() == count * elem_size::<T>(),
            old(self).spec_len() + count <= usize::MAX,
            old(self).can_grow((old(self).spec_len() + count) as nat),
            (old(self).spec_len() * elem_size::<T>()) % 4 == 0,
            (count * elem_size::<T>()) % 4 == 0,
        ensures
            final(self).wf(),
            final(self).spec_capacity() == old(self).grown_capacity((old(self).spec_len() + count) as nat),
            final(self).spec_usage() == old(self).spec_usage(),
            final(self).spec_device() == old(self).spec_device(),
            res is Ok ==> final(self).spec_len() == old(self).spec_len() + count,
            res is Err ==> final(self).spec_len() == old(self).spec_len(),
            res is Ok ==> final(self).elements_bytes(final(self).spec_len()) == old(self).elements_bytes(
                old(self).spec_len(),
            ) + bytes@,
            old(self).spec_len() + count <= old(self).spec_capacity() ==> res is Ok,
    {
        let ghost old_len = self.len as nat;
        let ghost old_bytes = self.spec_bytes();
        match self.check_capacity(data_loader, self.len + count) {
            Ok(()) => {},
            Err(e) => {
                return Err(e);
            },
        }
        let ghost sz = elem_size::<T>();
        proof {
            lemma_next_pow2((self.len + count) as nat);
            lemma_mul_le((self.len + count) as nat, self.mem.capacity as nat, sz);
            lemma_mul_le(self.len as nat, (self.len + count) as nat, sz);
            assert((self.len + count) * sz == self.len * sz + count * sz) by (nonlinear_arith);
        }
        let ghost before = self.spec_bytes();
        let start_offset = self.len * std::mem::size_of::<T>();
        data_loader.write_buffer(&mut self.mem.buf, start_offset as u64, bytes);
        self.len = self.len + count;
        proof {
            assert(before.take((old_len * sz) as int) =~= old_bytes.take((old_len * sz) as int));
            assert(self.spec_bytes().take((self.len * sz) as int) =~= before.take((old_len * sz) as int)
                + bytes@);
        }
        Ok(())
    }

    /// Writes `bytes` over the bytes of the elements; `bytes` must be the
    /// bytes of as many elements as the buffer holds. The buffer keeps its
    /// room: the elements' bytes are then `bytes`, and the rest stays.
    pub fn copy_from_bytes(&mut self, data_loader: &DataLoader, bytes: &[u8])
        requires
            old(self).wf(),
            data_loader.spec_device().spec_id() == old(self).spec_device().spec_id(),
            bytes@.len() == old(self).spec_len() * elem_size::<T>(),
            (old(self).spec_len() * elem_size::<T>()) % 4 == 0,
        ensures
            final(self).wf(),
            final(self).spec_capacity() == old(self).spec_capacity(),
            final(self).spec_usage() == old(self).spec_usage(),
            final(self).spec_device() == old(self).spec_device(),
            final(self).spec_len() == old(self).spec_len(),
            final(self).spec_bytes() == overwrite(old(self).spec_bytes(), 0, bytes@),
    {
        proof {
            lemma_mul_le(self.len as nat, self.mem.capacity as nat, elem_size::<T>());
        }
        data_loader.write_buffer(&mut self.mem.buf, 0, bytes);
    }

    /// Writes `bytes`, the bytes of one element, as the element at `index`:
    /// the buffer's bytes are then the old ones with `bytes` at that
    /// element's place.
    pub fn set_bytes(&mut self, index: usize, data_loader: &DataLoader, bytes: &[u8])
        requires
            old(self).wf(),
            data_loader.spec_device().spec_id() == old(self).spec_device().spec_id(),
            bytes@.len() == elem_size::<T>(),
            index < old(self).spec_len(),
            (index * elem_size::<T>()) % 4 == 0,
            elem_size::<T>() % 4 == 0,
        ensures
            final(self).wf(),
            final(self).spec_len() == old(self).spec_len(),
            final(self).spec_capacity() == old(self).spec_capacity(),
            final(self).spec_usage() == old(self).spec_usage(),
            final(self).spec_device() == old(self).spec_device(),
            final(self).spec_bytes() == overwrite(
                old(self).spec_bytes(),
                (index * elem_size::<T>()) as int,
                bytes@,
            ),
    {
        proof {
            lemma_mul_le((index + 1) as nat, self.mem.capacity as nat, elem_size::<T>());
            lemma_mul_le(index as nat, (index + 1) as nat, elem_size::<T>());
            assert((index + 1) * elem_size::<T>() == index * elem_size::<T>() + elem_size::<T>())
                by (nonlinear_arith);
        }
        let offset = index * std::mem::size_of::<T>();
        data_loader.write_buffer(&mut self.mem.buf, offset as u64, bytes);
    }
}

impl<T: bytemuck::Pod> VecBuf<T> {
    /// Appends the elements of `data`, growing the buffer when it has no
    /// room for them: `extend_from_bytes` with the bytes `bytemuck` gives for
    /// `data`. The written elements keep their bytes, and the new ones follow
    /// them.
    pub fn extend_from_slice(&mut self, data_loader: &DataLoader, data: &[T]) -> (res: Result<(), WaitError>)
        requires
            old(self).wf(),
            data_loader.spec_device().spec_id() == old(self).spec_device().spec_id(),
            old(self).spec_len() + data@.len() <= usize::MAX,
            old(self).can_grow(old(self).spec_len() + data@.len()),
            (old(self).spec_len() * elem_size::<T>()) % 4 == 0,
            (data@.len() * elem_size::<T>()) % 4 == 0,
        ensures
            final(self).wf(),
            final(self).spec_capacity() == old(self).grown_capacity(
                old(self).spec_len() + data@.len(),
            ),
            final(self).spec_usage() == old(self).spec_usage(),
            final(self).spec_device() == old(self).spec_device(),
            res is Ok ==> final(self).spec_len() == old(self).spec_len() + data@.len(),
            res is Err ==> final(self).spec_len() == old(self).spec_len(),
            res is Ok ==> final(self).elements_bytes(old(self).spec_len()) == old(self).elements_bytes(
                old(self).spec_len(),
            ),
            old(self).spec_len() + data@.len() <= old(self).spec_capacity() ==> res is Ok,
    {
        let ghost old_len = self.len as nat;
        let ghost old_bytes = self.spec_bytes();
        proof {
            lemma_mul_le(old_len, self.mem.capacity as nat, elem_size::<T>());
        }
        let res = self.extend_from_bytes(data_loader, data.len(), as_bytes(data));
        proof {
            if res is Ok {
                let sz = elem_size::<T>();
                lemma_mul_le(old_len, self.len as nat, sz);
                lemma_mul_le(self.len as nat, self.mem.capacity as nat, sz);
                let all = self.spec_bytes().take((self.len * sz) as int);
                assert(self.spec_bytes().take((old_len * sz) as int) =~= all.take((old_len * sz) as int));
                assert(all.take((old_len * sz) as int) =~= old_bytes.take((old_len * sz) as int));
            }
        }
        res
    }

    /// Writes `data` over the elements; `data` must be as long as the
    /// buffer: `copy_from_bytes` with the bytes `bytemuck` gives for `data`.
    /// The buffer keeps its room, and the bytes past the elements stay.
    pub fn copy_from_slice(&mut self, data_loader: &DataLoader, data: &[T])
        requires
            old(self).wf(),
            data_loader.spec_device().spec_id() == old(self).spec_device().spec_id(),
            old(self).spec_len() == data@.len(),
            (data@.len() * elem_size::<T>()) % 4 == 0,
        ensures
            final(self).wf(),
            final(self).spec_capacity() == old(self).spec_capacity(),
            final(self).spec_usage() == old(self).spec_usage(),
            final(self).spec_device() == old(self).spec_device(),
            final(self).spec_len() == old(self).spec_len(),
            final(self).spec_bytes().len() == old(self).spec_bytes().len(),
            final(self).spec_bytes().skip((data@.len() * elem_size::<T>()) as int) == old(
                self,
            ).spec_bytes().skip((data@.len() * elem_size::<T>()) as int),
    {
        let ghost before = self.spec_bytes();
        let bytes = as_bytes(data);
        self.copy_from_bytes(data_loader, bytes);
        proof {
            let k = bytes@.len() as int;
            lemma_mul_le(self.len as nat, self.mem.capacity as nat, elem_size::<T>());
            assert(self.spec_bytes().skip(k) =~= before.skip(k));
        }
    }

    /// Writes `data` as the element at `index`: `set_bytes` with the bytes
    /// `bytemuck` gives for `data`. The bytes of every other element, the
    /// length and the room stay as they were.
    pub fn set(&mut self, index: usize, data_loader: &DataLoader, data: &T)
        requires
            old(self).wf(),
            data_loader.spec_device().spec_id() == old(self).spec_device().spec_id(),
            index < old(self).spec_len(),
            (index * elem_size::<T>()) % 4 == 0,
            elem_size::<T>() % 4 == 0,
        ensures
            final(self).wf(),
            final(self).spec_len() == old(self).spec_len(),
            final(self).spec_capacity() == old(self).spec_capacity(),
            final(self).spec_usage() == old(self).spec_usage(),
            final(self).spec_device() == old(self).spec_device(),
            final(self).spec_bytes().len() == old(self).spec_bytes().len(),
            final(self).spec_bytes().take((index * elem_size::<T>()) as int) == old(self).spec_bytes().take(
                (index * elem_size::<T>()) as int,
            ),
            final(self).spec_bytes().skip(((index + 1) * elem_size::<T>()) as int) == old(
                self,
            ).spec_bytes().skip(((index + 1) * elem_size::<T>()) as int),
    {
        let ghost before = self.spec_bytes();
        let bytes = value_bytes(data);
        self.set_bytes(index, data_loader, bytes);
        proof {
            let sz = elem_size::<T>();
            lemma_mul_le((index + 1) as nat, self.mem.capacity as nat, sz);
            assert((index + 1) * sz == index * sz + sz) by (nonlinear_arith);
            crate::rendering::data_loader::law_read_after_write(before, (index * sz) as int, bytes@);
            assert(self.spec_bytes().take((index * sz) as int) =~= before.take((index * sz) as int));
            assert(self.spec_bytes().skip(((index + 1) * sz) as int) =~= before.skip(((index + 1) * sz) as int));
        }
    }

    /// A new buffer of `kind` holding the elements of `data`, with room for
    /// them rounded up to a power of two.
    pub fn new_from_slice(device: GpuDevice, data_loader: &DataLoader, kind: BufferKind, data: &[T]) -> (res:
        Result<Self, WaitError>)
        requires
            data_loader.spec_device().spec_id() == device.spec_id(),
            can_allocate::<T>(device, kind, data@.len()),
            (data@.len() * elem_size::<T>()) % 4 == 0,
        ensures
            res matches Ok(buf) ==> buf.wf(),
            res is Ok,
            res matches Ok(buf) ==> buf.spec_len() == data@.len() && buf.spec_capacity() == next_pow2(
                data@.len(),
            ) && buf.spec_usage() == kind_usage(kind) && buf.spec_device() == device,
    {
        let mut buf = Self::new_with_initial_capacity(device, kind, data.len());
        proof {
            lemma_next_pow2(data@.len());
            assert(0 * elem_size::<T>() == 0);
        }
        match buf.extend_from_slice(data_loader, data) {
            Ok(()) => Ok(buf),
            Err(e) => Err(e),
        }
    }
}

} // verus!

verus! {

/// A buffer made for any capacity has room for a power of two of elements.
pub proof fn law_allocation_is_pow2(capacity: nat)
    ensures
        crate::util::pow2::is_pow2(next_pow2(capacity)),
        next_pow2(capacity) >= capacity,
{
    lemma_next_pow2(capacity);
}

/// Growing keeps the room a power of two of elements.
pub proof fn law_growth_keeps_pow2<T>(buf: VecBuf<T>, min_capacity: nat)
    requires
        crate::util::pow2::is_pow2(buf.spec_capacity()),
    ensures
        crate::util::pow2::is_pow2(buf.grown_capacity(min_capacity)),
{
    lemma_next_pow2(min_capacity);
}

/// Growing never shrinks the buffer and leaves room for the elements asked
/// for.
pub proof fn law_growth_makes_room<T>(buf: VecBuf<T>, min_capacity: nat)
    ensures
        buf.grown_capacity(min_capacity) >= buf.spec_capacity(),
        buf.grown_capacity(min_capacity) >= min_capacity,
{
    lemma_next_pow2(min_capacity);
}

} // verus!
