//! Pooled buffer allocation: backing buffers cut into equal slices, leased
//! and returned by index.
//!
//! The allocator decides which backing buffer a request is served from and
//! when a new backing buffer is needed. Creating and destroying the device
//! memory behind a backing buffer is the caller's part: every grant says
//! whether its buffer is new, and every release whether the buffer behind
//! the slice is retired.

use vstd::prelude::*;

verus! {

/// Where the memory behind a buffer lives and who reads or writes it.
#[derive(Clone, Copy, Debug, PartialEq, Eq, Structural)]
pub enum MemoryUsage {
    GpuOnly,
    CpuOnly,
    CpuToGpu,
    GpuToCpu,
}

/// A set of buffer usages, one bit each.
#[derive(Clone, Copy, Debug, PartialEq, Eq, Structural)]
pub struct BufferUsage {
    pub bits: u32,
}

pub const BUFFER_USAGE_VERTEX: u32 = 0x001;

pub const BUFFER_USAGE_INDEX: u32 = 0x002;

pub const BUFFER_USAGE_CONSTANT: u32 = 0x004;

pub const BUFFER_USAGE_INDIRECT: u32 = 0x008;

pub const BUFFER_USAGE_STORAGE: u32 = 0x010;

pub const BUFFER_USAGE_STORAGE_TEXEL: u32 = 0x020;

pub const BUFFER_USAGE_UNIFORM_TEXEL: u32 = 0x040;

pub const BUFFER_USAGE_COPY_SRC: u32 = 0x080;

pub const BUFFER_USAGE_COPY_DST: u32 = 0x100;

impl BufferUsage {
    /// The usage set with exactly the bits of `bits`.
    pub fn from_bits(bits: u32) -> (usage: BufferUsage)
        ensures
            usage.bits == bits,
    {
        BufferUsage { bits }
    }

    /// The bits of this usage set.
    pub fn bits(&self) -> (bits: u32)
        ensures
            bits == self.bits,
    {
        self.bits
    }

    /// Whether every usage of `other` is in this set.
    pub open spec fn has(self, other: u32) -> bool {
        self.bits & other == other
    }

    /// Whether every usage of `other` is in this set.
    pub fn contains(&self, other: u32) -> (all: bool)
        ensures
            all == self.has(other),
    {
        self.bits & other == other
    }

    /// The set that holds the usages of both.
    pub fn union(&self, other: BufferUsage) -> (both: BufferUsage)
        ensures
            both.bits == self.bits | other.bits,
    {
        BufferUsage { bits: self.bits | other.bits }
    }
}

/// Bytes in a pooled backing buffer.
pub const SLICED_BUFFER_SIZE: usize = 16384;

/// The largest slice tier; longer requests get a buffer of their own.
pub const BIG_BUFFER_SLAB_SIZE: usize = 4096;

pub const BUFFER_SLAB_SIZE: usize = 1024;

pub const SMALL_BUFFER_SLAB_SIZE: usize = 512;

pub const TINY_BUFFER_SLAB_SIZE: usize = 256;

/// The offset alignment that every buffer gets, whatever its usage.
pub const BASE_ALIGNMENT: usize = 4;

/// A leased part of a backing buffer. It is handed out by
/// [`BufferAllocator::get_slice`] and goes back with
/// [`BufferAllocator::release`], always to the buffer it was cut from.
#[derive(Debug)]
pub struct VkBufferSlice {
    buffer: usize,
    offset: usize,
    length: usize,
}

/// What a slice is, as plain numbers.
pub struct SliceView {
    pub buffer: nat,
    pub offset: nat,
    pub length: nat,
}

impl View for VkBufferSlice {
    type V = SliceView;

    closed spec fn view(&self) -> SliceView {
        SliceView {
            buffer: self.buffer as nat,
            offset: self.offset as nat,
            length: self.length as nat,
        }
    }
}

impl VkBufferSlice {
    /// The index of the backing buffer in its allocator.
    pub fn get_buffer(&self) -> (buffer: usize)
        ensures
            buffer == self@.buffer,
    {
        self.buffer
    }

    /// Byte offset and byte length within the backing buffer.
    pub fn get_offset_and_length(&self) -> (pair: (usize, usize))
        ensures
            pair.0 == self@.offset,
            pair.1 == self@.length,
    {
        (self.offset, self.length)
    }

    /// Byte offset within the backing buffer.
    pub fn get_offset(&self) -> (offset: usize)
        ensures
            offset == self@.offset,
    {
        self.offset
    }

    /// Byte length of the slice.
    pub fn get_length(&self) -> (length: usize)
        ensures
            length == self@.length,
    {
        self.length
    }
}

/// A backing buffer as a value: its key, its cut, and the stack of free
/// slice indices (the last one is handed out next).
pub struct BufferView {
    pub memory_usage: MemoryUsage,
    pub buffer_usage: BufferUsage,
    pub slice_size: nat,
    pub slice_count: nat,
    pub free: Seq<nat>,
    pub pooled: bool,
}

impl BufferView {
    /// Every free index names a slice of the buffer, none twice, and the
    /// buffer's size fits the machine.
    pub open spec fn wf(self) -> bool {
        &&& self.free.no_duplicates()
        &&& forall|k: int| 0 <= k < self.free.len() ==> #[trigger] self.free[k] < self.slice_count
        &&& self.slice_size * self.slice_count <= usize::MAX
    }

    /// Whether slice `index` is out on lease.
    pub open spec fn leased(self, index: nat) -> bool {
        index < self.slice_count && !self.free.contains(index)
    }

    /// The buffer's size in bytes.
    pub open spec fn capacity(self) -> nat {
        self.slice_size * self.slice_count
    }

    /// A buffer of `count` slices of `size` bytes, all of them free, the
    /// one at offset zero on top of the stack.
    pub open spec fn fresh(
        memory_usage: MemoryUsage,
        buffer_usage: BufferUsage,
        size: nat,
        count: nat,
        pooled: bool,
    ) -> BufferView {
        BufferView {
            memory_usage,
            buffer_usage,
            slice_size: size,
            slice_count: count,
            free: Seq::new(count, |k: int| (count - 1 - k) as nat),
            pooled,
        }
    }

    /// The buffer after its top free slice was leased.
    pub open spec fn after_lease(self) -> BufferView {
        BufferView { free: self.free.drop_last(), ..self }
    }

    /// The buffer after slice `index` came back.
    pub open spec fn after_release(self, index: nat) -> BufferView {
        BufferView { free: self.free.push(index), ..self }
    }

    /// Whether the buffer was made for one large request and has its slice
    /// back: it is never leased again, its memory may be destroyed, and
    /// its place goes to the next buffer that is made.
    pub open spec fn retired(self) -> bool {
        !self.pooled && self.free.len() == self.slice_count
    }

    /// Whether a request of `length` bytes under `alignment`, for the given
    /// key, can be served from this buffer.
    pub open spec fn serves(
        self,
        memory_usage: MemoryUsage,
        buffer_usage: BufferUsage,
        alignment: nat,
        length: nat,
    ) -> bool {
        &&& self.pooled
        &&& self.memory_usage == memory_usage
        &&& self.buffer_usage == buffer_usage
        &&& self.slice_size % alignment == 0
        &&& self.slice_size >= length
        &&& self.free.len() > 0
    }
}

/// One backing buffer, cut into `slice_count` slices of `slice_size` bytes.
pub struct VkBuffer {
    memory_usage: MemoryUsage,
    buffer_usage: BufferUsage,
    slice_size: usize,
    slice_count: usize,
    free: Vec<usize>,
    pooled: bool,
}

impl View for VkBuffer {
    type V = BufferView;

    closed spec fn view(&self) -> BufferView {
        BufferView {
            memory_usage: self.memory_usage,
            buffer_usage: self.buffer_usage,
            slice_size: self.slice_size as nat,
            slice_count: self.slice_count as nat,
            free: self.free@.map_values(|i: usize| i as nat),
            pooled: self.pooled,
        }
    }
}

impl VkBuffer {
    /// A buffer of `slices` slices of `slice_size` bytes each, all free. The
    /// slice at offset zero is leased first, then the one behind it, and so
    /// on.
    pub fn new(
        slice_size: usize,
        slices: usize,
        memory_usage: MemoryUsage,
        buffer_usage: BufferUsage,
    ) -> (buffer: VkBuffer)
        requires
            slice_size * slices <= usize::MAX,
        ensures
            buffer@ == BufferView::fresh(
                memory_usage,
                buffer_usage,
                slice_size as nat,
                slices as nat,
                true,
            ),
            buffer@.wf(),
    {
        let mut free: Vec<usize> = Vec::new();
        let mut i: usize = slices;
        while i > 0
            invariant
                i <= slices,
                free@.len() == slices - i,
                forall|k: int| 0 <= k < free@.len() ==> #[trigger] free@[k] == slices - 1 - k,
            decreases i,
        {
            i = i - 1;
            free.push(i);
        }
        let buffer = VkBuffer {
            memory_usage,
            buffer_usage,
            slice_size,
            slice_count: slices,
            free,
            pooled: true,
        };
        proof {
            assert(buffer@.free =~= Seq::new(slices as nat, |k: int| (slices - 1 - k) as nat));
        }
        buffer
    }

    /// Bytes in each slice.
    pub fn slice_size(&self) -> (size: usize)
        ensures
            size == self@.slice_size,
    {
        self.slice_size
    }

    /// Number of slices the buffer is cut into.
    pub fn slice_count(&self) -> (count: usize)
        ensures
            count == self@.slice_count,
    {
        self.slice_count
    }

    /// Bytes in the whole buffer.
    pub fn size(&self) -> (bytes: usize)
        requires
            self@.wf(),
        ensures
            bytes == self@.capacity(),
    {
        self.slice_size * self.slice_count
    }

    /// The memory class the buffer was asked for.
    pub fn memory_usage(&self) -> (usage: MemoryUsage)
        ensures
            usage == self@.memory_usage,
    {
        self.memory_usage
    }

    /// The usages the buffer was asked for.
    pub fn buffer_usage(&self) -> (usage: BufferUsage)
        ensures
            usage == self@.buffer_usage,
    {
        self.buffer_usage
    }

    /// Whether the buffer serves pooled requests; a buffer made for one
    /// large request does not.
    pub fn is_pooled(&self) -> (pooled: bool)
        ensures
            pooled == self@.pooled,
    {
        self.pooled
    }

    /// Whether the buffer was made for one large request and has its slice
    /// back, so that it serves nothing further.
    pub fn is_retired(&self) -> (retired: bool)
        ensures
            retired == self@.retired(),
    {
        !self.pooled && self.free.len() == self.slice_count
    }

    /// Number of slices that are free.
    pub fn free_slices(&self) -> (count: usize)
        ensures
            count == self@.free.len(),
    {
        self.free.len()
    }

    /// Whether slice `index` is out on lease.
    pub fn is_leased(&self, index: usize) -> (leased: bool)
        ensures
            leased == self@.leased(index as nat),
    {
        if index >= self.slice_count {
            return false;
        }
        let mut k: usize = 0;
        while k < self.free.len()
            invariant
                k <= self.free@.len(),
                forall|j: int| 0 <= j < k ==> self.free@[j] != index,
            decreases self.free@.len() - k,
        {
            if self.free[k] == index {
                proof {
                    assert(self@.free[k as int] == index as nat);
                }
                return false;
            }
            k = k + 1;
        }
        proof {
            assert forall|j: int| 0 <= j < self@.free.len() implies self@.free[j] != index as nat by {
                assert(self@.free[j] == self.free@[j] as nat);
            }
        }
        true
    }
}

/// The offset alignment that `usage` asks for on a device with the given
/// minimum alignments for constant and storage buffers: the largest of the
/// base alignment and of those that the usage brings in.
pub open spec fn alignment_for(usage: BufferUsage, min_uniform: nat, min_storage: nat) -> nat {
    let base = BASE_ALIGNMENT as nat;
    let with_uniform = if usage.has(BUFFER_USAGE_CONSTANT) && min_uniform > base {
        min_uniform
    } else {
        base
    };
    if usage.has(BUFFER_USAGE_STORAGE) && min_storage > with_uniform {
        min_storage
    } else {
        with_uniform
    }
}

/// The size tier of a request of `length` bytes: the smallest tier that
/// holds it.
pub open spec fn tier_for(length: nat) -> nat {
    if length <= TINY_BUFFER_SLAB_SIZE {
        TINY_BUFFER_SLAB_SIZE as nat
    } else if length <= SMALL_BUFFER_SLAB_SIZE {
        SMALL_BUFFER_SLAB_SIZE as nat
    } else if length <= BUFFER_SLAB_SIZE {
        BUFFER_SLAB_SIZE as nat
    } else {
        BIG_BUFFER_SLAB_SIZE as nat
    }
}

/// `tier` rounded up to the next multiple of `alignment`.
pub open spec fn rounded_tier(tier: nat, alignment: nat) -> nat {
    crate::align::round_up_spec(tier as int, alignment as int) as nat
}

/// Whether slices of `size` bytes hold every request of each tier that
/// they hold any request of: the size is not below the tier of a request
/// as long as a slice.
pub open spec fn tier_closed(size: nat) -> bool {
    size >= tier_for(size)
}

/// The slice size of a new pooled buffer for a request of `length` bytes
/// under `alignment`: the smallest tier, not below the request's, that
/// rounded up to the next multiple of the alignment holds every request of
/// each tier it reaches. Rounded up, the largest tier always does.
pub open spec fn slice_size_for(length: nat, alignment: nat) -> nat {
    if length <= TINY_BUFFER_SLAB_SIZE && tier_closed(
        rounded_tier(TINY_BUFFER_SLAB_SIZE as nat, alignment),
    ) {
        rounded_tier(TINY_BUFFER_SLAB_SIZE as nat, alignment)
    } else if length <= SMALL_BUFFER_SLAB_SIZE && tier_closed(
        rounded_tier(SMALL_BUFFER_SLAB_SIZE as nat, alignment),
    ) {
        rounded_tier(SMALL_BUFFER_SLAB_SIZE as nat, alignment)
    } else if length <= BUFFER_SLAB_SIZE && tier_closed(
        rounded_tier(BUFFER_SLAB_SIZE as nat, alignment),
    ) {
        rounded_tier(BUFFER_SLAB_SIZE as nat, alignment)
    } else {
        rounded_tier(BIG_BUFFER_SLAB_SIZE as nat, alignment)
    }
}

/// The number of slices that a pooled buffer is cut into: as many as fit
/// the size of a pooled buffer, and one at the least.
pub open spec fn slice_count_for(slice_size: nat) -> nat {
    if slice_size >= SLICED_BUFFER_SIZE {
        1
    } else {
        SLICED_BUFFER_SIZE as nat / slice_size
    }
}

/// The index of the first retired buffer at or after `from`, or the number
/// of buffers if none is retired.
pub open spec fn first_retired_from(buffers: Seq<BufferView>, from: int) -> int
    decreases buffers.len() - from,
{
    if from < 0 || from >= buffers.len() {
        buffers.len() as int
    } else if buffers[from].retired() {
        from
    } else {
        first_retired_from(buffers, from + 1)
    }
}

/// The index of the first buffer at or after `from` that serves the
/// request, or the number of buffers if none does.
pub open spec fn first_fit_from(
    buffers: Seq<BufferView>,
    memory_usage: MemoryUsage,
    buffer_usage: BufferUsage,
    alignment: nat,
    length: nat,
    from: int,
) -> int
    decreases buffers.len() - from,
{
    if from < 0 || from >= buffers.len() {
        buffers.len() as int
    } else if buffers[from].serves(memory_usage, buffer_usage, alignment, length) {
        from
    } else {
        first_fit_from(buffers, memory_usage, buffer_usage, alignment, length, from + 1)
    }
}

/// A request for a slice.
pub struct SliceRequest {
    pub memory_usage: MemoryUsage,
    pub buffer_usage: BufferUsage,
    pub length: nat,
}

/// The request for `length` bytes of the given memory class and usages.
pub open spec fn request_of(
    memory_usage: MemoryUsage,
    buffer_usage: BufferUsage,
    length: usize,
) -> SliceRequest {
    SliceRequest { memory_usage, buffer_usage, length: length as nat }
}

/// An allocator as a value: its backing buffers in the order they were
/// made, and the device's minimum offset alignments.
pub struct AllocatorView {
    pub buffers: Seq<BufferView>,
    pub min_uniform_alignment: nat,
    pub min_storage_alignment: nat,
}

impl AllocatorView {
    /// Whether `buffer` is fit to be one of this allocator's: it is well
    /// formed and has slices of some size; if it is pooled, that size is a
    /// multiple of the alignment that its usages ask for, and holds every
    /// request of each tier it reaches; if it was made for one request, it
    /// is one slice.
    pub open spec fn holds(self, buffer: BufferView) -> bool {
        &&& buffer.wf()
        &&& buffer.slice_size > 0
        &&& buffer.pooled ==> tier_closed(buffer.slice_size)
        &&& buffer.pooled ==> buffer.slice_size % alignment_for(
            buffer.buffer_usage,
            self.min_uniform_alignment,
            self.min_storage_alignment,
        ) == 0
        &&& !buffer.pooled ==> buffer.slice_count == 1
    }

    /// Every backing buffer is fit to be one of this allocator's, and the
    /// device's alignments are numbers of the machine.
    pub open spec fn wf(self) -> bool {
        &&& self.min_uniform_alignment <= usize::MAX
        &&& self.min_storage_alignment <= usize::MAX
        &&& forall|b: int| 0 <= b < self.buffers.len() ==> self.holds(#[trigger] self.buffers[b])
    }

    /// Whether `slice` is out on lease: it is one of the slices that a
    /// buffer of this allocator is cut into, and that one is not free.
    pub open spec fn live(self, slice: SliceView) -> bool {
        &&& slice.buffer < self.buffers.len()
        &&& self.buffers[slice.buffer as int].slice_size > 0
        &&& slice.length == self.buffers[slice.buffer as int].slice_size
        &&& slice.offset % slice.length == 0
        &&& self.buffers[slice.buffer as int].leased(slice.offset / slice.length)
    }

    /// The alignment that the request's usage asks for on this device.
    pub open spec fn alignment(self, request: SliceRequest) -> nat {
        alignment_for(request.buffer_usage, self.min_uniform_alignment, self.min_storage_alignment)
    }

    /// The index of the first buffer that serves `request`, or the number
    /// of buffers if none does.
    pub open spec fn first_fit(self, request: SliceRequest) -> int {
        first_fit_from(
            self.buffers,
            request.memory_usage,
            request.buffer_usage,
            self.alignment(request),
            request.length,
            0,
        )
    }

    /// The slice that `request` is granted.
    pub open spec fn granted(self, request: SliceRequest) -> SliceView {
        let fit = self.first_fit(request);
        if request.length > BIG_BUFFER_SLAB_SIZE {
            SliceView { buffer: self.slot() as nat, offset: 0, length: request.length }
        } else if fit < self.buffers.len() {
            let buffer = self.buffers[fit];
            SliceView {
                buffer: fit as nat,
                offset: buffer.free.last() * buffer.slice_size,
                length: buffer.slice_size,
            }
        } else {
            SliceView {
                buffer: self.slot() as nat,
                offset: 0,
                length: slice_size_for(request.length, self.alignment(request)),
            }
        }
    }

    /// The place that a new buffer takes: that of the first retired
    /// buffer, or the end of the list if no buffer is retired.
    pub open spec fn slot(self) -> int {
        first_retired_from(self.buffers, 0)
    }

    /// The allocator with the new buffer `buffer` in its place.
    pub open spec fn with_new(self, buffer: BufferView) -> AllocatorView {
        AllocatorView {
            buffers: if self.slot() < self.buffers.len() {
                self.buffers.update(self.slot(), buffer)
            } else {
                self.buffers.push(buffer)
            },
            ..self
        }
    }

    /// Whether `request` is served by a buffer that is made for it.
    pub open spec fn grows(self, request: SliceRequest) -> bool {
        request.length > BIG_BUFFER_SLAB_SIZE || self.first_fit(request) >= self.buffers.len()
    }

    /// The allocator after `request` was granted. A request above the
    /// largest tier gets a buffer of its own, of one slice. Any other is
    /// served from the first buffer of its key whose slices are a multiple
    /// of the alignment, at least as long as the request, and not all
    /// leased; if there is none, a new pooled buffer is made, with slices
    /// of [`slice_size_for`] the request, and its first slice leased. A
    /// new buffer takes the place of the first retired
    /// buffer; the list grows only where none is retired.
    pub open spec fn after_get(self, request: SliceRequest) -> AllocatorView {
        let fit = self.first_fit(request);
        if request.length > BIG_BUFFER_SLAB_SIZE {
            self.with_new(
                BufferView::fresh(
                    request.memory_usage,
                    request.buffer_usage,
                    request.length,
                    1,
                    false,
                ).after_lease(),
            )
        } else if fit < self.buffers.len() {
            AllocatorView { buffers: self.buffers.update(fit, self.buffers[fit].after_lease()), ..self }
        } else {
            let size = slice_size_for(request.length, self.alignment(request));
            self.with_new(
                BufferView::fresh(
                    request.memory_usage,
                    request.buffer_usage,
                    size,
                    slice_count_for(size),
                    true,
                ).after_lease(),
            )
        }
    }

    /// The allocator after the live `slice` came back to its buffer.
    pub open spec fn after_release(self, slice: SliceView) -> AllocatorView {
        AllocatorView {
            buffers: self.buffers.update(
                slice.buffer as int,
                self.buffers[slice.buffer as int].after_release(slice.offset / slice.length),
            ),
            ..self
        }
    }
}

/// What [`BufferAllocator::get_slice`] hands back: the slice, and whether its
/// backing buffer was made for this request and still wants its memory.
#[derive(Debug)]
pub struct SliceGrant {
    pub slice: VkBufferSlice,
    pub new_buffer: bool,
}

/// Pools slices of backing buffers per memory class and usage set.
pub struct BufferAllocator {
    buffers: Vec<VkBuffer>,
    min_uniform_alignment: usize,
    min_storage_alignment: usize,
}

impl View for BufferAllocator {
    type V = AllocatorView;

    closed spec fn view(&self) -> AllocatorView {
        AllocatorView {
            buffers: self.buffers@.map_values(|b: VkBuffer| b@),
            min_uniform_alignment: self.min_uniform_alignment as nat,
            min_storage_alignment: self.min_storage_alignment as nat,
        }
    }
}

impl BufferAllocator {
    /// An allocator without buffers for a device with the given minimum
    /// offset alignments of constant buffers and of storage buffers.
    pub fn new(min_uniform_alignment: usize, min_storage_alignment: usize) -> (allocator: Self)
        ensures
            allocator@.buffers.len() == 0,
            allocator@.min_uniform_alignment == min_uniform_alignment,
            allocator@.min_storage_alignment == min_storage_alignment,
            allocator@.wf(),
    {
        let allocator = BufferAllocator {
            buffers: Vec::new(),
            min_uniform_alignment,
            min_storage_alignment,
        };
        allocator
    }

    /// Number of backing buffers made so far.
    pub fn buffer_count(&self) -> (count: usize)
        ensures
            count == self@.buffers.len(),
    {
        self.buffers.len()
    }

    /// The backing buffer with the given index.
    pub fn buffer(&self, index: usize) -> (buffer: &VkBuffer)
        requires
            index < self@.buffers.len(),
        ensures
            buffer@ == self@.buffers[index as int],
    {
        &self.buffers[index]
    }

    /// The offset alignment that `usage` asks for on this device.
    pub fn alignment(&self, usage: BufferUsage) -> (alignment: usize)
        ensures
            alignment == alignment_for(
                usage,
                self@.min_uniform_alignment,
                self@.min_storage_alignment,
            ),
            alignment >= BASE_ALIGNMENT,
    {
        let mut alignment: usize = BASE_ALIGNMENT;
        if usage.contains(BUFFER_USAGE_CONSTANT) && self.min_uniform_alignment > alignment {
            alignment = self.min_uniform_alignment;
        }
        if usage.contains(BUFFER_USAGE_STORAGE) && self.min_storage_alignment > alignment {
            alignment = self.min_storage_alignment;
        }
        alignment
    }

    /// Leases a slice of at least `length` bytes for the given memory class
    /// and usages, as [`AllocatorView::after_get`] describes, and says
    /// whether its backing buffer is new. The slice starts at a multiple of
    /// the alignment that the usage asks for, and was not on lease before;
    /// a slice of a pooled buffer is such a multiple long as well. Its
    /// buffer is one of the request's memory class and usages.
    pub fn get_slice(
        &mut self,
        memory_usage: MemoryUsage,
        buffer_usage: BufferUsage,
        length: usize,
    ) -> (grant: SliceGrant)
        requires
            old(self)@.wf(),
        ensures
            final(self)@ == old(self)@.after_get(request_of(memory_usage, buffer_usage, length)),
            grant.slice@ == old(self)@.granted(request_of(memory_usage, buffer_usage, length)),
            grant.new_buffer == old(self)@.grows(request_of(memory_usage, buffer_usage, length)),
            final(self)@.wf(),
            final(self)@.live(grant.slice@),
            !old(self)@.live(grant.slice@),
            grant.slice@.length >= length,
            grant.slice@.offset % alignment_for(
                buffer_usage,
                old(self)@.min_uniform_alignment,
                old(self)@.min_storage_alignment,
            ) == 0,
            length <= BIG_BUFFER_SLAB_SIZE ==> grant.slice@.length % alignment_for(
                buffer_usage,
                old(self)@.min_uniform_alignment,
                old(self)@.min_storage_alignment,
            ) == 0,
            final(self)@.buffers[grant.slice@.buffer as int].memory_usage == memory_usage,
            final(self)@.buffers[grant.slice@.buffer as int].buffer_usage == buffer_usage,
    {
        let ghost request = request_of(memory_usage, buffer_usage, length);
        let ghost before = self@;
        if length > BIG_BUFFER_SLAB_SIZE {
            let mut buffer = VkBuffer::new(length, 1, memory_usage, buffer_usage);
            buffer.pooled = false;
            let _ = buffer.lease();
            let id = self.place(buffer);
            proof {
                lemma_get_slice_sound(before, request);
            }
            return SliceGrant { slice: VkBufferSlice { buffer: id, offset: 0, length }, new_buffer: true };
        }
        let alignment = self.alignment(buffer_usage);
        let mut b: usize = 0;
        while b < self.buffers.len() && !self.buffers[b].can_serve(
            memory_usage,
            buffer_usage,
            alignment,
            length,
        )
            invariant
                b <= self.buffers@.len(),
                self@ == before,
                alignment > 0,
                first_fit_from(
                    before.buffers,
                    memory_usage,
                    buffer_usage,
                    alignment as nat,
                    length as nat,
                    0,
                ) == first_fit_from(
                    before.buffers,
                    memory_usage,
                    buffer_usage,
                    alignment as nat,
                    length as nat,
                    b as int,
                ),
            decreases self.buffers@.len() - b,
        {
            b = b + 1;
        }
        proof {
            lemma_get_slice_sound(before, request);
        }
        if b < self.buffers.len() {
            let size = self.buffers[b].slice_size;
            let index = self.buffers[b].lease();
            proof {
                assert(self@.buffers =~= before.after_get(request).buffers);
                assert(index * size <= size * before.buffers[b as int].slice_count) by (nonlinear_arith)
                    requires
                        index < before.buffers[b as int].slice_count,
                ;
            }
            return SliceGrant {
                slice: VkBufferSlice { buffer: b, offset: index * size, length: size },
                new_buffer: false,
            };
        }
        proof {
            lemma_slice_size_for(length as nat, alignment as nat);
        }
        let slice_size = slice_size_of(length, alignment);
        let slices = if slice_size >= SLICED_BUFFER_SIZE {
            1
        } else {
            SLICED_BUFFER_SIZE / slice_size
        };
        let mut buffer = VkBuffer::new(slice_size, slices, memory_usage, buffer_usage);
        let _ = buffer.lease();
        let id = self.place(buffer);
        SliceGrant { slice: VkBufferSlice { buffer: id, offset: 0, length: slice_size }, new_buffer: true }
    }

    /// Puts a new buffer in the place of the first retired buffer, or at
    /// the end of the list if no buffer is retired, and says where.
    fn place(&mut self, buffer: VkBuffer) -> (id: usize)
        ensures
            final(self)@ == old(self)@.with_new(buffer@),
            id == old(self)@.slot(),
    {
        let ghost before = self@;
        let mut id: usize = 0;
        while id < self.buffers.len() && !self.buffers[id].is_retired()
            invariant
                id <= self.buffers@.len(),
                self@ == before,
                first_retired_from(before.buffers, 0) == first_retired_from(before.buffers, id as int),
            decreases self.buffers@.len() - id,
        {
            id = id + 1;
        }
        if id < self.buffers.len() {
            self.buffers.set(id, buffer);
        } else {
            self.buffers.push(buffer);
        }
        proof {
            assert(self@.buffers =~= before.with_new(buffer@).buffers);
        }
        id
    }
}

/// `tier` rounded up to the next multiple of `alignment`.
fn round_tier(tier: usize, alignment: usize) -> (size: usize)
    requires
        0 < tier <= BIG_BUFFER_SLAB_SIZE,
        alignment > 0,
    ensures
        size == rounded_tier(tier as nat, alignment as nat),
{
    proof {
        lemma_rounded_tier(tier as nat, alignment as nat);
    }
    if alignment >= tier {
        alignment
    } else {
        ((tier + alignment - 1) / alignment) * alignment
    }
}

/// Whether slices of `size` bytes hold every request of each tier that
/// they hold any request of.
fn is_tier_closed(size: usize) -> (closed: bool)
    ensures
        closed == tier_closed(size as nat),
{
    size >= BIG_BUFFER_SLAB_SIZE || size == TINY_BUFFER_SLAB_SIZE || size == SMALL_BUFFER_SLAB_SIZE
        || size == BUFFER_SLAB_SIZE
}

/// The slice size of a new pooled buffer for a request of `length` bytes
/// under `alignment`.
fn slice_size_of(length: usize, alignment: usize) -> (size: usize)
    requires
        length <= BIG_BUFFER_SLAB_SIZE,
        alignment > 0,
    ensures
        size == slice_size_for(length as nat, alignment as nat),
{
    if length <= TINY_BUFFER_SLAB_SIZE {
        let size = round_tier(TINY_BUFFER_SLAB_SIZE, alignment);
        if is_tier_closed(size) {
            return size;
        }
    }
    if length <= SMALL_BUFFER_SLAB_SIZE {
        let size = round_tier(SMALL_BUFFER_SLAB_SIZE, alignment);
        if is_tier_closed(size) {
            return size;
        }
    }
    if length <= BUFFER_SLAB_SIZE {
        let size = round_tier(BUFFER_SLAB_SIZE, alignment);
        if is_tier_closed(size) {
            return size;
        }
    }
    round_tier(BIG_BUFFER_SLAB_SIZE, alignment)
}

/// What became of a slice that was handed to [`BufferAllocator::release`].
#[derive(Clone, Copy, Debug, PartialEq, Eq, Structural)]
pub enum ReleaseOutcome {
    /// The slice was not on lease from this allocator: nothing changed.
    NotLeased,
    /// The slice is free again in its pooled buffer.
    Returned,
    /// The slice was the whole of a buffer made for one request. That
    /// buffer is retired: it serves no further request, and its memory
    /// is the caller's to destroy.
    Retired,
}

impl BufferAllocator {
    /// Takes `slice` back. A slice that is on lease from this allocator
    /// goes on top of the free stack of the buffer it was cut from; any
    /// other slice changes nothing. The outcome tells the three apart:
    /// not on lease, back in a pooled buffer, or the end of a buffer that
    /// was made for one request.
    pub fn release(&mut self, slice: VkBufferSlice) -> (outcome: ReleaseOutcome)
        requires
            old(self)@.wf(),
        ensures
            outcome is NotLeased <==> !old(self)@.live(slice@),
            outcome is Retired <==> old(self)@.live(slice@) && !old(self)@.buffers[slice@.buffer
                as int].pooled,
            outcome is NotLeased ==> final(self)@ == old(self)@,
            !(outcome is NotLeased) ==> final(self)@ == old(self)@.after_release(slice@),
            outcome is Retired ==> final(self)@.buffers[slice@.buffer as int].retired(),
            final(self)@.wf(),
            !final(self)@.live(slice@),
    {
        let ghost before = self@;
        if slice.buffer >= self.buffers.len() {
            return ReleaseOutcome::NotLeased;
        }
        let size = self.buffers[slice.buffer].slice_size;
        if size == 0 || slice.length != size || slice.offset % size != 0 {
            return ReleaseOutcome::NotLeased;
        }
        let index = slice.offset / size;
        if !self.buffers[slice.buffer].is_leased(index) {
            return ReleaseOutcome::NotLeased;
        }
        proof {
            assert(before.holds(before.buffers[slice.buffer as int]));
        }
        self.buffers[slice.buffer].give_back(index);
        proof {
            assert(self@.buffers =~= before.after_release(slice@).buffers);
            lemma_release_keeps_wf(before, slice@);
        }
        if self.buffers[slice.buffer].pooled {
            ReleaseOutcome::Returned
        } else {
            ReleaseOutcome::Retired
        }
    }
}

/// Taking a live slice back keeps the allocator well formed, and where the
/// slice was the whole of a buffer made for one request, that buffer is
/// retired.
pub proof fn lemma_release_keeps_wf(a: AllocatorView, slice: SliceView)
    requires
        a.wf(),
        a.live(slice),
    ensures
        a.after_release(slice).wf(),
        !a.after_release(slice).live(slice),
        !a.buffers[slice.buffer as int].pooled ==> a.after_release(slice).buffers[slice.buffer
            as int].retired(),
{
    let buffer = a.buffers[slice.buffer as int];
    let index = slice.offset / slice.length;
    let after = a.after_release(slice);
    assert(a.holds(buffer));
    lemma_after_release(buffer, index);
    assert forall|b: int| 0 <= b < after.buffers.len() implies after.holds(
        #[trigger] after.buffers[b],
    ) by {
        assert(a.holds(a.buffers[b]));
    }
    if !buffer.pooled {
        lemma_one_slice_back(buffer, index);
    }
}

/// A buffer of one slice whose slice comes back has all its slices free.
pub proof fn lemma_one_slice_back(buffer: BufferView, index: nat)
    requires
        buffer.wf(),
        buffer.slice_count == 1,
        buffer.leased(index),
    ensures
        buffer.after_release(index).free.len() == 1,
{
    if buffer.free.len() > 0 {
        assert(buffer.free[0] < 1);
        assert(buffer.free.contains(buffer.free[0]));
    }
}

/// A retired buffer gives its place to the next buffer that is made: as
/// long as a buffer is retired, requests that need a new buffer leave the
/// number of buffers as it is, and a request that an existing buffer
/// serves is never served from a retired one.
pub proof fn law_retired_place_is_taken(a: AllocatorView, request: SliceRequest, b: int)
    requires
        a.wf(),
        request.length <= usize::MAX,
        0 <= b < a.buffers.len(),
        a.buffers[b].retired(),
    ensures
        a.after_get(request).buffers.len() == a.buffers.len(),
        a.grows(request) ==> a.granted(request).buffer <= b && !a.after_get(
            request,
        ).buffers[a.granted(request).buffer as int].retired(),
        !a.grows(request) ==> a.granted(request).buffer != b && a.after_get(request).buffers[b]
            == a.buffers[b],
{
    lemma_get_slice_sound(a, request);
    lemma_first_retired_from(a.buffers, 0);
    let after = a.after_get(request);
    let granted = a.granted(request);
    if a.grows(request) {
        assert(after.live(granted));
        if after.buffers[granted.buffer as int].retired() {
            lemma_retired_has_nothing_leased(after, granted.buffer as int);
        }
    }
}

impl VkBuffer {
    /// Whether a request of `length` bytes under `alignment`, for the given
    /// key, can be served from this buffer.
    fn can_serve(
        &self,
        memory_usage: MemoryUsage,
        buffer_usage: BufferUsage,
        alignment: usize,
        length: usize,
    ) -> (serves: bool)
        requires
            alignment > 0,
        ensures
            serves == self@.serves(memory_usage, buffer_usage, alignment as nat, length as nat),
    {
        self.pooled && self.memory_usage == memory_usage && self.buffer_usage == buffer_usage
            && self.slice_size % alignment == 0 && self.slice_size >= length && self.free.len() > 0
    }

    /// Takes the top free slice.
    fn lease(&mut self) -> (index: usize)
        requires
            old(self)@.wf(),
            old(self)@.free.len() > 0,
        ensures
            final(self)@ == old(self)@.after_lease(),
            index == old(self)@.free.last(),
            final(self)@.wf(),
            final(self)@.leased(index as nat),
            !old(self)@.leased(index as nat),
    {
        let ghost before = self@;
        let index = self.free.pop().unwrap();
        proof {
            assert(self@.free =~= before.free.drop_last());
            assert(before.free[before.free.len() - 1] == index as nat);
            assert(before.free.contains(index as nat));
            assert(!self@.free.contains(index as nat)) by {
                if self@.free.contains(index as nat) {
                    let k = choose|k: int| 0 <= k < self@.free.len() && self@.free[k] == index as nat;
                    assert(before.free[k] == before.free[before.free.len() - 1]);
                }
            }
        }
        index
    }

    /// Puts the leased slice `index` on top of the free stack.
    fn give_back(&mut self, index: usize)
        requires
            old(self)@.wf(),
            old(self)@.leased(index as nat),
        ensures
            final(self)@ == old(self)@.after_release(index as nat),
            final(self)@.wf(),
            !final(self)@.leased(index as nat),
    {
        let ghost before = self@;
        self.free.push(index);
        proof {
            assert(self@.free =~= before.free.push(index as nat));
            lemma_after_release(before, index as nat);
        }
    }
}

/// What [`BufferAllocator::get_slice`] promises of the slice it grants
/// follows from the allocator's state before the request.
pub proof fn lemma_get_slice_sound(a: AllocatorView, request: SliceRequest)
    requires
        a.wf(),
        request.length <= usize::MAX,
    ensures
        a.after_get(request).wf(),
        a.after_get(request).live(a.granted(request)),
        !a.live(a.granted(request)),
        a.granted(request).length >= request.length,
        a.granted(request).offset % a.alignment(request) == 0,
        request.length <= BIG_BUFFER_SLAB_SIZE ==> a.granted(request).length % a.alignment(request)
            == 0,
        a.after_get(request).buffers.len() == a.buffers.len() + if a.grows(request) && a.slot()
            == a.buffers.len() {
            1int
        } else {
            0int
        },
        0 <= a.slot() <= a.buffers.len(),
        a.grows(request) ==> a.granted(request).buffer == a.slot(),
        a.after_get(request).buffers[a.granted(request).buffer as int].pooled == (request.length
            <= BIG_BUFFER_SLAB_SIZE),
        a.after_get(request).buffers[a.granted(request).buffer as int].memory_usage
            == request.memory_usage,
        a.after_get(request).buffers[a.granted(request).buffer as int].buffer_usage
            == request.buffer_usage,
        forall|b: int|
            0 <= b < a.buffers.len() && b != a.granted(request).buffer ==> a.after_get(
                request,
            ).buffers[b] == #[trigger] a.buffers[b],
        0 <= a.first_fit(request) <= a.buffers.len(),
        a.first_fit(request) < a.buffers.len() ==> a.buffers[a.first_fit(request)].serves(
            request.memory_usage,
            request.buffer_usage,
            a.alignment(request),
            request.length,
        ),
        forall|j: int|
            0 <= j < a.first_fit(request) ==> !(#[trigger] a.buffers[j]).serves(
                request.memory_usage,
                request.buffer_usage,
                a.alignment(request),
                request.length,
            ),
{
    let alignment = a.alignment(request);
    let fit = a.first_fit(request);
    let granted = a.granted(request);
    let after = a.after_get(request);
    lemma_alignment_for(request.buffer_usage, a.min_uniform_alignment, a.min_storage_alignment);
    lemma_first_fit_from(
        a.buffers,
        request.memory_usage,
        request.buffer_usage,
        alignment,
        request.length,
        0,
    );
    lemma_first_retired_from(a.buffers, 0);
    let slot = a.slot();
    if slot < a.buffers.len() {
        lemma_retired_has_nothing_leased(a, slot);
    }
    if request.length > BIG_BUFFER_SLAB_SIZE {
        let fresh = BufferView::fresh(
            request.memory_usage,
            request.buffer_usage,
            request.length,
            1,
            false,
        );
        lemma_fresh_wf(fresh);
        lemma_after_lease(fresh);
        assert(after.buffers[slot] == fresh.after_lease());
        assert(fresh.free.last() == 0);
        assert(0nat % request.length == 0 && 0nat / request.length == 0) by (nonlinear_arith)
            requires
                request.length > 0,
        ;
    } else if fit < a.buffers.len() {
        let buffer = a.buffers[fit];
        let index = buffer.free.last();
        assert(a.holds(buffer));
        lemma_after_lease(buffer);
        assert(after.buffers[fit] == buffer.after_lease());
        lemma_slice_of_index(index, buffer.slice_size, alignment);
        assert(buffer.free.contains(index));
    } else {
        let size = slice_size_for(request.length, alignment);
        let fresh = BufferView::fresh(
            request.memory_usage,
            request.buffer_usage,
            size,
            slice_count_for(size),
            true,
        );
        lemma_slice_size_for(request.length, alignment);
        lemma_fresh_wf(fresh);
        lemma_after_lease(fresh);
        assert(after.buffers[slot] == fresh.after_lease());
        assert(fresh.free.last() == 0);
        assert(0nat % size == 0 && 0nat / size == 0) by (nonlinear_arith)
            requires
                size > 0,
        ;
    }
    assert forall|b: int| 0 <= b < after.buffers.len() implies after.holds(
        #[trigger] after.buffers[b],
    ) by {
        if b < a.buffers.len() {
            assert(a.holds(a.buffers[b]));
        }
    }
}

/// [`first_retired_from`] finds the first retired buffer at or after
/// `from`.
pub proof fn lemma_first_retired_from(buffers: Seq<BufferView>, from: int)
    requires
        0 <= from <= buffers.len(),
    ensures
        from <= first_retired_from(buffers, from) <= buffers.len(),
        first_retired_from(buffers, from) < buffers.len() ==> buffers[first_retired_from(
            buffers,
            from,
        )].retired(),
        forall|j: int|
            from <= j < first_retired_from(buffers, from) ==> !(#[trigger] buffers[j]).retired(),
    decreases buffers.len() - from,
{
    if from < buffers.len() && !buffers[from].retired() {
        lemma_first_retired_from(buffers, from + 1);
    }
}

/// No slice of a retired buffer is on lease.
pub proof fn lemma_retired_has_nothing_leased(a: AllocatorView, b: int)
    requires
        a.wf(),
        0 <= b < a.buffers.len(),
        a.buffers[b].retired(),
    ensures
        forall|index: nat| !a.buffers[b].leased(index),
        forall|slice: SliceView| slice.buffer == b ==> !a.live(slice),
{
    let buffer = a.buffers[b];
    assert(a.holds(buffer));
    assert(buffer.free[0] < 1);
    assert(buffer.free.contains(buffer.free[0]));
}

/// The alignment that a usage asks for is at least the base alignment, and
/// a number of the machine where the device's alignments are.
pub proof fn lemma_alignment_for(usage: BufferUsage, min_uniform: nat, min_storage: nat)
    ensures
        alignment_for(usage, min_uniform, min_storage) >= BASE_ALIGNMENT,
        min_uniform <= usize::MAX && min_storage <= usize::MAX ==> alignment_for(
            usage,
            min_uniform,
            min_storage,
        ) <= usize::MAX,
{
}

/// A tier rounded up to the alignment is a multiple of the alignment
/// that is below the sum of the two and not below either: the alignment
/// itself where that is not below the tier.
pub proof fn lemma_rounded_tier(tier: nat, alignment: nat)
    requires
        0 < tier <= BIG_BUFFER_SLAB_SIZE,
        0 < alignment <= usize::MAX,
    ensures
        rounded_tier(tier, alignment) % alignment == 0,
        rounded_tier(tier, alignment) >= tier,
        rounded_tier(tier, alignment) >= alignment,
        rounded_tier(tier, alignment) < tier + alignment,
        alignment >= tier ==> rounded_tier(tier, alignment) == alignment,
        alignment < tier ==> rounded_tier(tier, alignment) == ((tier + alignment - 1) / (
        alignment as int)) * alignment,
        rounded_tier(tier, alignment) <= usize::MAX,
{
    let a = alignment as int;
    let v = tier + a - 1;
    crate::align::lemma_floor_multiple(v, a);
    let size = (v / a) * a;
    assert(size == rounded_tier(tier, alignment));
    assert(size >= a) by {
        if size < a {
            assert(size % a == 0);
            vstd::arithmetic::div_mod::lemma_small_mod(size as nat, a as nat);
        }
    }
    if a >= tier {
        assert(size < 2 * a);
        assert(size == a) by {
            if size > a {
                assert((size - a) % a == 0) by {
                    vstd::arithmetic::div_mod::lemma_mod_sub_multiples_vanish(size, a);
                }
                vstd::arithmetic::div_mod::lemma_small_mod((size - a) as nat, a as nat);
            }
        }
    }
}

/// The slice size of a new pooled buffer is a multiple of the alignment,
/// at least as large as the request, as its tier and as the alignment, it
/// holds every request of each tier it reaches, and with the number of its
/// slices it makes a buffer whose size fits the machine.
pub proof fn lemma_slice_size_for(length: nat, alignment: nat)
    requires
        length <= BIG_BUFFER_SLAB_SIZE,
        0 < alignment <= usize::MAX,
    ensures
        slice_size_for(length, alignment) % alignment == 0,
        slice_size_for(length, alignment) >= length,
        slice_size_for(length, alignment) >= alignment,
        slice_size_for(length, alignment) >= tier_for(length),
        tier_closed(slice_size_for(length, alignment)),
        slice_size_for(length, alignment) <= usize::MAX,
        slice_count_for(slice_size_for(length, alignment)) >= 1,
        slice_size_for(length, alignment) * slice_count_for(slice_size_for(length, alignment))
            <= usize::MAX,
{
    lemma_rounded_tier(TINY_BUFFER_SLAB_SIZE as nat, alignment);
    lemma_rounded_tier(SMALL_BUFFER_SLAB_SIZE as nat, alignment);
    lemma_rounded_tier(BUFFER_SLAB_SIZE as nat, alignment);
    lemma_rounded_tier(BIG_BUFFER_SLAB_SIZE as nat, alignment);
    let size = slice_size_for(length, alignment) as int;
    let count = slice_count_for(size as nat);
    if size < SLICED_BUFFER_SIZE {
        crate::align::lemma_floor_multiple(SLICED_BUFFER_SIZE as int, size);
        assert(count >= 1) by {
            vstd::arithmetic::div_mod::lemma_div_non_zero(SLICED_BUFFER_SIZE as int, size);
        }
        assert(size * count == (SLICED_BUFFER_SIZE as int / size) * size) by (nonlinear_arith)
            requires
                count == SLICED_BUFFER_SIZE as int / size,
        ;
    } else {
        assert(size * count == size) by (nonlinear_arith)
            requires
                count == 1,
        ;
    }
}

/// [`first_fit_from`] finds the first buffer at or after `from` that serves
/// the request.
pub proof fn lemma_first_fit_from(
    buffers: Seq<BufferView>,
    memory_usage: MemoryUsage,
    buffer_usage: BufferUsage,
    alignment: nat,
    length: nat,
    from: int,
)
    requires
        0 <= from <= buffers.len(),
    ensures
        from <= first_fit_from(buffers, memory_usage, buffer_usage, alignment, length, from)
            <= buffers.len(),
        first_fit_from(buffers, memory_usage, buffer_usage, alignment, length, from)
            < buffers.len() ==> buffers[first_fit_from(
            buffers,
            memory_usage,
            buffer_usage,
            alignment,
            length,
            from,
        )].serves(memory_usage, buffer_usage, alignment, length),
        forall|j: int|
            from <= j < first_fit_from(buffers, memory_usage, buffer_usage, alignment, length, from)
                ==> !(#[trigger] buffers[j]).serves(memory_usage, buffer_usage, alignment, length),
    decreases buffers.len() - from,
{
    if from < buffers.len() && !buffers[from].serves(
        memory_usage,
        buffer_usage,
        alignment,
        length,
    ) {
        lemma_first_fit_from(buffers, memory_usage, buffer_usage, alignment, length, from + 1);
    }
}

/// A buffer whose slices are all free is well formed when its size fits.
pub proof fn lemma_fresh_wf(fresh: BufferView)
    requires
        fresh.free == Seq::new(fresh.slice_count, |k: int| (fresh.slice_count - 1 - k) as nat),
        fresh.slice_size * fresh.slice_count <= usize::MAX,
    ensures
        fresh.wf(),
        fresh.slice_count > 0 ==> fresh.free.last() == 0,
{
}

/// Leasing the top free slice keeps a buffer well formed and moves exactly
/// that slice from free to leased.
pub proof fn lemma_after_lease(buffer: BufferView)
    requires
        buffer.wf(),
        buffer.free.len() > 0,
    ensures
        buffer.after_lease().wf(),
        buffer.after_lease().leased(buffer.free.last()),
        !buffer.leased(buffer.free.last()),
        buffer.free.last() < buffer.slice_count,
        forall|i: nat| i != buffer.free.last() ==> buffer.after_lease().leased(i) == buffer.leased(i),
{
    let last = buffer.free.last();
    let rest = buffer.free.drop_last();
    assert(buffer.free[buffer.free.len() - 1] == last);
    assert(buffer.free.contains(last));
    assert forall|k: int| 0 <= k < rest.len() implies rest[k] != last by {
        assert(rest[k] == buffer.free[k]);
    }
    assert forall|i: nat| i != last implies rest.contains(i) == buffer.free.contains(i) by {
        if buffer.free.contains(i) {
            let k = choose|k: int| 0 <= k < buffer.free.len() && buffer.free[k] == i;
            assert(rest[k] == i);
        }
        if rest.contains(i) {
            let k = choose|k: int| 0 <= k < rest.len() && rest[k] == i;
            assert(buffer.free[k] == i);
        }
    }
}

/// The slice with index `index` of a buffer cut into slices of `size` bytes
/// starts at a multiple of `size`, and of every `alignment` that divides
/// `size`.
pub proof fn lemma_slice_of_index(index: nat, size: nat, alignment: nat)
    requires
        size > 0,
        alignment > 0,
    ensures
        (index * size) % size == 0,
        (index * size) / size == index,
        size % alignment == 0 ==> (index * size) % alignment == 0,
{
    vstd::arithmetic::div_mod::lemma_div_by_multiple(index as int, size as int);
    vstd::arithmetic::div_mod::lemma_mod_multiples_basic(index as int, size as int);
    if size % alignment == 0 {
        let q = size / alignment;
        vstd::arithmetic::div_mod::lemma_fundamental_div_mod(size as int, alignment as int);
        assert(index * size == (index * q) * alignment) by (nonlinear_arith)
            requires
                size == alignment * q,
        ;
        vstd::arithmetic::div_mod::lemma_mod_multiples_basic((index * q) as int, alignment as int);
    }
}

/// Taking a leased slice back keeps a buffer well formed and moves exactly
/// that slice from leased to free, on top of the stack.
pub proof fn lemma_after_release(buffer: BufferView, index: nat)
    requires
        buffer.wf(),
        buffer.leased(index),
    ensures
        buffer.after_release(index).wf(),
        !buffer.after_release(index).leased(index),
        buffer.after_release(index).free.last() == index,
        buffer.after_release(index).after_lease() == buffer,
        forall|i: nat| i != index ==> buffer.after_release(index).leased(i) == buffer.leased(i),
{
    let pushed = buffer.free.push(index);
    assert(pushed[pushed.len() - 1] == index);
    assert(pushed.contains(index));
    assert(pushed.drop_last() =~= buffer.free);
    assert forall|i: nat| i != index implies pushed.contains(i) == buffer.free.contains(i) by {
        if buffer.free.contains(i) {
            let k = choose|k: int| 0 <= k < buffer.free.len() && buffer.free[k] == i;
            assert(pushed[k] == i);
        }
        if pushed.contains(i) {
            let k = choose|k: int| 0 <= k < pushed.len() && pushed[k] == i;
            assert(buffer.free[k] == i);
        }
    }
}

/// Two different slices that are on lease at the same time never share a
/// byte, and each lies within its backing buffer.
pub proof fn law_live_slices_disjoint(a: AllocatorView, s1: SliceView, s2: SliceView)
    requires
        a.wf(),
        a.live(s1),
        a.live(s2),
        s1 != s2,
    ensures
        s1.buffer != s2.buffer || s1.offset + s1.length <= s2.offset || s2.offset + s2.length
            <= s1.offset,
        s1.offset + s1.length <= a.buffers[s1.buffer as int].capacity(),
{
    let size = s1.length;
    let i1 = s1.offset / size;
    vstd::arithmetic::div_mod::lemma_fundamental_div_mod(s1.offset as int, size as int);
    assert((i1 + 1) * size <= a.buffers[s1.buffer as int].slice_count * size) by (nonlinear_arith)
        requires
            i1 + 1 <= a.buffers[s1.buffer as int].slice_count,
    ;
    assert((i1 + 1) * size == size * i1 + size) by (nonlinear_arith);
    assert(a.buffers[s1.buffer as int].slice_count * size == size * a.buffers[s1.buffer as int].slice_count)
        by (nonlinear_arith);
    if s1.buffer == s2.buffer {
        let i2 = s2.offset / size;
        vstd::arithmetic::div_mod::lemma_fundamental_div_mod(s2.offset as int, size as int);
        if i1 < i2 {
            assert(size * i1 + size <= size * i2) by (nonlinear_arith)
                requires
                    i1 + 1 <= i2,
                    size > 0,
            ;
        } else if i2 < i1 {
            assert(size * i2 + size <= size * i1) by (nonlinear_arith)
                requires
                    i2 + 1 <= i1,
                    size > 0,
            ;
        }
    }
}

/// A slice that is on lease stays on lease while other requests are
/// granted.
pub proof fn lemma_get_keeps_live(a: AllocatorView, request: SliceRequest, slice: SliceView)
    requires
        a.wf(),
        request.length <= usize::MAX,
        a.live(slice),
    ensures
        a.after_get(request).live(slice),
        a.granted(request) != slice,
{
    lemma_get_slice_sound(a, request);
    let fit = a.first_fit(request);
    if request.length <= BIG_BUFFER_SLAB_SIZE && fit < a.buffers.len() {
        lemma_after_lease(a.buffers[fit]);
        if slice.buffer == fit {
            let index = slice.offset / slice.length;
            let top = a.buffers[fit].free.last();
            assert(a.buffers[fit].free.contains(top));
            assert(index != top);
        }
    } else if a.slot() < a.buffers.len() {
        lemma_first_retired_from(a.buffers, 0);
        lemma_retired_has_nothing_leased(a, a.slot());
        assert(a.after_get(request).buffers[slice.buffer as int] == a.buffers[slice.buffer as int]);
    }
}

/// The allocator after the requests of `requests` were granted in order.
pub open spec fn after_requests(a: AllocatorView, requests: Seq<SliceRequest>) -> AllocatorView
    decreases requests.len(),
{
    if requests.len() == 0 {
        a
    } else {
        after_requests(a, requests.drop_last()).after_get(requests.last())
    }
}

/// The slice that the request with index `i` of `requests` is granted when
/// the requests are granted in order.
pub open spec fn grant_of(a: AllocatorView, requests: Seq<SliceRequest>, i: int) -> SliceView {
    after_requests(a, requests.take(i)).granted(requests[i])
}

/// Granting requests in order keeps the allocator well formed, and the
/// slice of each request is on lease at the end.
pub proof fn lemma_after_requests(a: AllocatorView, requests: Seq<SliceRequest>, i: int)
    requires
        a.wf(),
        forall|k: int| 0 <= k < requests.len() ==> (#[trigger] requests[k]).length <= usize::MAX,
        0 <= i < requests.len(),
    ensures
        after_requests(a, requests).wf(),
        after_requests(a, requests).live(grant_of(a, requests, i)),
        after_requests(a, requests.take(i)).wf(),
        forall|j: int|
            i < j < requests.len() ==> #[trigger] grant_of(a, requests, j) != grant_of(
                a,
                requests,
                i,
            ),
    decreases requests.len(),
{
    let rest = requests.drop_last();
    let last = requests.last();
    lemma_after_requests_wf(a, rest);
    lemma_after_requests_wf(a, requests);
    lemma_after_requests_wf(a, requests.take(i));
    lemma_get_slice_sound(after_requests(a, rest), last);
    if i == requests.len() - 1 {
        assert(requests.take(i) =~= rest);
    } else {
        lemma_after_requests(a, rest, i);
        assert(rest.take(i) =~= requests.take(i));
        assert(grant_of(a, rest, i) == grant_of(a, requests, i));
        lemma_get_keeps_live(after_requests(a, rest), last, grant_of(a, requests, i));
        assert forall|j: int| i < j < requests.len() implies #[trigger] grant_of(a, requests, j)
            != grant_of(a, requests, i) by {
            if j < requests.len() - 1 {
                assert(rest.take(j) =~= requests.take(j));
                assert(grant_of(a, rest, j) == grant_of(a, requests, j));
            } else {
                assert(requests.take(j) =~= rest);
            }
        }
    }
}

/// Granting requests in order keeps the allocator well formed.
pub proof fn lemma_after_requests_wf(a: AllocatorView, requests: Seq<SliceRequest>)
    requires
        a.wf(),
        forall|k: int| 0 <= k < requests.len() ==> (#[trigger] requests[k]).length <= usize::MAX,
    ensures
        after_requests(a, requests).wf(),
    decreases requests.len(),
{
    if requests.len() > 0 {
        lemma_after_requests_wf(a, requests.drop_last());
        lemma_get_slice_sound(after_requests(a, requests.drop_last()), requests.last());
    }
}

/// Whatever requests are granted one after the other, the slices handed
/// out for two of them never share a byte, each lies within its backing
/// buffer, and each starts at a multiple of the alignment that its usage
/// asks for; a slice of a pooled buffer is such a multiple long as well.
pub proof fn law_granted_slices_disjoint_and_aligned(
    a: AllocatorView,
    requests: Seq<SliceRequest>,
    i: int,
    j: int,
)
    requires
        a.wf(),
        forall|k: int| 0 <= k < requests.len() ==> (#[trigger] requests[k]).length <= usize::MAX,
        0 <= i < j < requests.len(),
    ensures
        ({
            let s1 = grant_of(a, requests, i);
            let s2 = grant_of(a, requests, j);
            let end = after_requests(a, requests);
            &&& s1.buffer != s2.buffer || s1.offset + s1.length <= s2.offset || s2.offset
                + s2.length <= s1.offset
            &&& s1.offset + s1.length <= end.buffers[s1.buffer as int].capacity()
            &&& s2.offset + s2.length <= end.buffers[s2.buffer as int].capacity()
            &&& s1.offset % a.alignment(requests[i]) == 0
            &&& s2.offset % a.alignment(requests[j]) == 0
            &&& s1.length >= requests[i].length
            &&& s2.length >= requests[j].length
            &&& requests[i].length <= BIG_BUFFER_SLAB_SIZE ==> s1.length % a.alignment(requests[i])
                == 0
            &&& requests[j].length <= BIG_BUFFER_SLAB_SIZE ==> s2.length % a.alignment(requests[j])
                == 0
        }),
{
    lemma_after_requests(a, requests, i);
    lemma_after_requests(a, requests, j);
    let end = after_requests(a, requests);
    let s1 = grant_of(a, requests, i);
    let s2 = grant_of(a, requests, j);
    law_live_slices_disjoint(end, s1, s2);
    law_live_slices_disjoint(end, s2, s1);
    lemma_get_slice_sound(after_requests(a, requests.take(i)), requests[i]);
    lemma_get_slice_sound(after_requests(a, requests.take(j)), requests[j]);
    lemma_after_requests_keep_limits(a, requests.take(i));
    lemma_after_requests_keep_limits(a, requests.take(j));
}

/// Granting requests leaves the device's alignments as they were.
pub proof fn lemma_after_requests_keep_limits(a: AllocatorView, requests: Seq<SliceRequest>)
    ensures
        after_requests(a, requests).min_uniform_alignment == a.min_uniform_alignment,
        after_requests(a, requests).min_storage_alignment == a.min_storage_alignment,
    decreases requests.len(),
{
    if requests.len() > 0 {
        lemma_after_requests_keep_limits(a, requests.drop_last());
    }
}

/// A slice that came back to a pooled buffer is leased again before any new
/// buffer is made: a request of the same memory class and usages that is
/// no longer than the slice is served from the buffers that exist, from
/// the buffer of the returned slice unless an earlier one serves it, and
/// then with that very slice.
pub proof fn law_released_slice_is_reused(a: AllocatorView, slice: SliceView, request: SliceRequest)
    requires
        a.wf(),
        a.live(slice),
        a.buffers[slice.buffer as int].pooled,
        a.buffers[slice.buffer as int].memory_usage == request.memory_usage,
        a.buffers[slice.buffer as int].buffer_usage == request.buffer_usage,
        request.length <= slice.length,
        request.length <= BIG_BUFFER_SLAB_SIZE,
    ensures
        !a.after_release(slice).grows(request),
        a.after_release(slice).after_get(request).buffers.len() == a.buffers.len(),
        a.after_release(slice).granted(request).buffer <= slice.buffer,
        a.after_release(slice).granted(request).buffer == slice.buffer ==> a.after_release(
            slice,
        ).granted(request) == slice,
        a.after_release(slice).granted(request).buffer == slice.buffer ==> a.after_release(
            slice,
        ).after_get(request) == a,
{
    let released = a.after_release(slice);
    let index = slice.offset / slice.length;
    let buffer = a.buffers[slice.buffer as int];
    assert(a.holds(buffer));
    lemma_after_release(buffer, index);
    lemma_release_keeps_wf(a, slice);
    lemma_get_slice_sound(released, request);
    let fit = released.first_fit(request);
    assert(released.buffers[slice.buffer as int].serves(
        request.memory_usage,
        request.buffer_usage,
        released.alignment(request),
        request.length,
    ));
    if fit > slice.buffer {
        assert(!released.buffers[slice.buffer as int].serves(
            request.memory_usage,
            request.buffer_usage,
            released.alignment(request),
            request.length,
        ));
    }
    if fit == slice.buffer {
        vstd::arithmetic::div_mod::lemma_fundamental_div_mod(
            slice.offset as int,
            slice.length as int,
        );
        assert(index * slice.length == slice.length * index) by (nonlinear_arith);
        assert(released.after_get(request).buffers =~= a.buffers);
    }
}

/// A buffer of another memory class or of other usages is passed over: the
/// search for a buffer that serves a request goes the same way whatever
/// stands in that buffer's place, as long as it is of another memory class
/// or of other usages too.
pub proof fn lemma_other_keys_are_passed_over(
    buffers: Seq<BufferView>,
    request: SliceRequest,
    alignment: nat,
    at: int,
    other: BufferView,
    from: int,
)
    requires
        0 <= at < buffers.len(),
        0 <= from <= buffers.len(),
        buffers[at].memory_usage != request.memory_usage || buffers[at].buffer_usage
            != request.buffer_usage,
        other.memory_usage != request.memory_usage || other.buffer_usage != request.buffer_usage,
    ensures
        first_fit_from(
            buffers.update(at, other),
            request.memory_usage,
            request.buffer_usage,
            alignment,
            request.length,
            from,
        ) == first_fit_from(
            buffers,
            request.memory_usage,
            request.buffer_usage,
            alignment,
            request.length,
            from,
        ),
    decreases buffers.len() - from,
{
    if from < buffers.len() {
        lemma_other_keys_are_passed_over(buffers, request, alignment, at, other, from + 1);
    }
}

/// Each memory class and set of usages has its buffers to itself: which
/// of them serves a request does not depend on the buffers of another
/// memory class or of other usages.
pub proof fn law_keys_keep_their_buffers_apart(
    a: AllocatorView,
    request: SliceRequest,
    at: int,
    other: BufferView,
)
    requires
        0 <= at < a.buffers.len(),
        a.buffers[at].memory_usage != request.memory_usage || a.buffers[at].buffer_usage
            != request.buffer_usage,
        other.memory_usage != request.memory_usage || other.buffer_usage != request.buffer_usage,
    ensures
        (AllocatorView { buffers: a.buffers.update(at, other), ..a }).first_fit(request)
            == a.first_fit(request),
        a.first_fit(request) != at,
{
    lemma_other_keys_are_passed_over(a.buffers, request, a.alignment(request), at, other, 0);
    lemma_first_fit_from(
        a.buffers,
        request.memory_usage,
        request.buffer_usage,
        a.alignment(request),
        request.length,
        0,
    );
}

/// A slice that is leased for a request and comes back is there for every
/// request of the same memory class, usages and tier: such a request is
/// served from the buffers that exist, from one of its own memory class
/// and usages, and the number of buffers stays as it is.
pub proof fn law_tier_is_reused(a: AllocatorView, first: SliceRequest, second: SliceRequest)
    requires
        a.wf(),
        first.length <= BIG_BUFFER_SLAB_SIZE,
        second.length <= BIG_BUFFER_SLAB_SIZE,
        second.memory_usage == first.memory_usage,
        second.buffer_usage == first.buffer_usage,
        tier_for(second.length) == tier_for(first.length),
    ensures
        ({
            let leased = a.after_get(first);
            let released = leased.after_release(a.granted(first));
            let again = released.granted(second);
            &&& !released.grows(second)
            &&& released.after_get(second).buffers.len() == leased.buffers.len()
            &&& again.buffer <= a.granted(first).buffer
            &&& again.buffer == a.granted(first).buffer ==> again == a.granted(first)
            &&& released.buffers[again.buffer as int].pooled
            &&& released.buffers[again.buffer as int].memory_usage == second.memory_usage
            &&& released.buffers[again.buffer as int].buffer_usage == second.buffer_usage
        }),
{
    let leased = a.after_get(first);
    let slice = a.granted(first);
    let released = leased.after_release(slice);
    lemma_get_slice_sound(a, first);
    assert(leased.holds(leased.buffers[slice.buffer as int]));
    law_released_slice_is_reused(leased, slice, second);
    lemma_release_keeps_wf(leased, slice);
    lemma_get_slice_sound(released, second);
}

pub const VK_BUFFER_USAGE_TRANSFER_SRC: u32 = 0x001;

pub const VK_BUFFER_USAGE_TRANSFER_DST: u32 = 0x002;

pub const VK_BUFFER_USAGE_UNIFORM_TEXEL_BUFFER: u32 = 0x004;

pub const VK_BUFFER_USAGE_STORAGE_TEXEL_BUFFER: u32 = 0x008;

pub const VK_BUFFER_USAGE_UNIFORM_BUFFER: u32 = 0x010;

pub const VK_BUFFER_USAGE_STORAGE_BUFFER: u32 = 0x020;

pub const VK_BUFFER_USAGE_INDEX_BUFFER: u32 = 0x040;

pub const VK_BUFFER_USAGE_VERTEX_BUFFER: u32 = 0x080;

pub const VK_BUFFER_USAGE_INDIRECT_BUFFER: u32 = 0x100;

/// The device's usage `flag` if `usage` has the usage `own`, else none.
pub open spec fn device_flag(usage: u32, own: u32, flag: u32) -> u32 {
    if usage & own != 0 {
        flag
    } else {
        0
    }
}

/// The device's buffer usages for the usages `usage`: one for each.
pub open spec fn device_buffer_usage(usage: u32) -> u32 {
    device_flag(usage, BUFFER_USAGE_VERTEX, VK_BUFFER_USAGE_VERTEX_BUFFER) | device_flag(
        usage,
        BUFFER_USAGE_INDEX,
        VK_BUFFER_USAGE_INDEX_BUFFER,
    ) | device_flag(usage, BUFFER_USAGE_CONSTANT, VK_BUFFER_USAGE_UNIFORM_BUFFER) | device_flag(
        usage,
        BUFFER_USAGE_INDIRECT,
        VK_BUFFER_USAGE_INDIRECT_BUFFER,
    ) | device_flag(usage, BUFFER_USAGE_STORAGE, VK_BUFFER_USAGE_STORAGE_BUFFER) | device_flag(
        usage,
        BUFFER_USAGE_STORAGE_TEXEL,
        VK_BUFFER_USAGE_STORAGE_TEXEL_BUFFER,
    ) | device_flag(usage, BUFFER_USAGE_UNIFORM_TEXEL, VK_BUFFER_USAGE_UNIFORM_TEXEL_BUFFER)
        | device_flag(usage, BUFFER_USAGE_COPY_SRC, VK_BUFFER_USAGE_TRANSFER_SRC) | device_flag(
        usage,
        BUFFER_USAGE_COPY_DST,
        VK_BUFFER_USAGE_TRANSFER_DST,
    )
}

/// The device's usage `flag` if `usage` has the usage `own`, else none.
fn device_flag_of(usage: u32, own: u32, flag: u32) -> (result: u32)
    ensures
        result == device_flag(usage, own, flag),
{
    if usage & own != 0 {
        flag
    } else {
        0
    }
}

/// The device's buffer usages for `usage`.
pub fn buffer_usage_to_vk(usage: BufferUsage) -> (flags: u32)
    ensures
        flags == device_buffer_usage(usage.bits),
{
    let bits = usage.bits;
    device_flag_of(bits, BUFFER_USAGE_VERTEX, VK_BUFFER_USAGE_VERTEX_BUFFER) | device_flag_of(
        bits,
        BUFFER_USAGE_INDEX,
        VK_BUFFER_USAGE_INDEX_BUFFER,
    ) | device_flag_of(bits, BUFFER_USAGE_CONSTANT, VK_BUFFER_USAGE_UNIFORM_BUFFER) | device_flag_of(
        bits,
        BUFFER_USAGE_INDIRECT,
        VK_BUFFER_USAGE_INDIRECT_BUFFER,
    ) | device_flag_of(bits, BUFFER_USAGE_STORAGE, VK_BUFFER_USAGE_STORAGE_BUFFER) | device_flag_of(
        bits,
        BUFFER_USAGE_STORAGE_TEXEL,
        VK_BUFFER_USAGE_STORAGE_TEXEL_BUFFER,
    ) | device_flag_of(bits, BUFFER_USAGE_UNIFORM_TEXEL, VK_BUFFER_USAGE_UNIFORM_TEXEL_BUFFER)
        | device_flag_of(bits, BUFFER_USAGE_COPY_SRC, VK_BUFFER_USAGE_TRANSFER_SRC) | device_flag_of(
        bits,
        BUFFER_USAGE_COPY_DST,
        VK_BUFFER_USAGE_TRANSFER_DST,
    )
}

/// Which queue families share a buffer.
#[derive(Debug)]
pub struct BufferSharing {
    /// Whether several queue families use the buffer at once.
    pub concurrent: bool,
    /// The queue families that use the buffer.
    pub queue_families: Vec<u32>,
}

/// Which queue families share a buffer with the usages `usage`: a buffer
/// that is copied from is used by the graphics family, and by the transfer
/// family too where the device has one; any other buffer belongs to
/// whichever family uses it.
pub fn buffer_sharing(usage: BufferUsage, graphics_family: u32, transfer_family: Option<u32>) -> (sharing:
    BufferSharing)
    ensures
        sharing.concurrent == (usage.has(BUFFER_USAGE_COPY_SRC) && transfer_family is Some),
        sharing.queue_families@ == if !usage.has(BUFFER_USAGE_COPY_SRC) {
            Seq::<u32>::empty()
        } else if transfer_family is Some {
            seq![graphics_family, transfer_family->0]
        } else {
            seq![graphics_family]
        },
{
    let mut queue_families: Vec<u32> = Vec::new();
    let mut concurrent = false;
    if usage.contains(BUFFER_USAGE_COPY_SRC) {
        queue_families.push(graphics_family);
        match transfer_family {
            Some(family) => {
                concurrent = true;
                queue_families.push(family);
            },
            None => {},
        }
    }
    proof {
        if !usage.has(BUFFER_USAGE_COPY_SRC) {
            assert(queue_families@ =~= Seq::<u32>::empty());
        } else if transfer_family is Some {
            assert(queue_families@ =~= seq![graphics_family, transfer_family->0]);
        } else {
            assert(queue_families@ =~= seq![graphics_family]);
        }
    }
    BufferSharing { concurrent, queue_families }
}

/// Whether a buffer in memory of the class `memory_usage` is mapped for the
/// processor.
pub fn is_mapped(memory_usage: MemoryUsage) -> (mapped: bool)
    ensures
        mapped == (memory_usage != MemoryUsage::GpuOnly),
{
    memory_usage != MemoryUsage::GpuOnly
}

/// Whether the processor's caches have to be dealt with by hand when a
/// slice is mapped or unmapped: the memory is not coherent, and of a class
/// that the processor reaches.
pub fn needs_cache_maintenance(is_coherent: bool, memory_usage: MemoryUsage) -> (needed: bool)
    ensures
        needed == (!is_coherent && memory_usage != MemoryUsage::GpuOnly),
{
    !is_coherent && (memory_usage == MemoryUsage::CpuToGpu || memory_usage == MemoryUsage::CpuOnly
        || memory_usage == MemoryUsage::GpuToCpu)
}

} // verus!
