//! Upload recordings and their retirement. One recording is open at a
//! time; a flush hands it to the queue and opens the next. A submitted
//! recording keeps its references until its fence has signalled; whether a
//! fence has signalled is the caller's to find out.

use crate::lifetime_tracker::{ResourceKind, TrackersView, VkLifetimeTrackers};
use std::collections::VecDeque;
use vstd::prelude::*;

verus! {

/// A transfer recording as a value.
pub struct RecordingView {
    pub handle: u64,
    pub fence: u64,
    pub trackers: TrackersView,
}

/// A command buffer for uploads, with the fence that signals when the
/// device is done with it and the references it holds until then.
pub struct VkTransferCommandBuffer {
    cmd_buffer: u64,
    trackers: VkLifetimeTrackers,
    fence: u64,
}

impl View for VkTransferCommandBuffer {
    type V = RecordingView;

    closed spec fn view(&self) -> RecordingView {
        RecordingView { handle: self.cmd_buffer, fence: self.fence, trackers: self.trackers@ }
    }
}

impl VkTransferCommandBuffer {
    /// A recording on the command buffer `cmd_buffer`, guarded by `fence`,
    /// that holds no reference yet.
    pub fn new(cmd_buffer: u64, fence: u64) -> (recording: Self)
        ensures
            recording@ == (RecordingView {
                handle: cmd_buffer,
                fence,
                trackers: TrackersView::empty(),
            }),
    {
        VkTransferCommandBuffer { cmd_buffer, trackers: VkLifetimeTrackers::new(), fence }
    }

    /// The command buffer's handle.
    pub fn get_handle(&self) -> (handle: u64)
        ensures
            handle == self@.handle,
    {
        self.cmd_buffer
    }

    /// The fence that guards the recording.
    pub fn get_fence(&self) -> (fence: u64)
        ensures
            fence == self@.fence,
    {
        self.fence
    }

    /// The references that the recording holds.
    pub fn trackers(&self) -> (trackers: &VkLifetimeTrackers)
        ensures
            trackers@ == self@.trackers,
    {
        &self.trackers
    }
}

/// The width, height or depth of mip level `mip_level` of a texture whose
/// base level measures `extent`: halved once per level, never below one.
pub open spec fn mip_extent_spec(extent: u32, mip_level: u32) -> u32 {
    if extent >> mip_level >= 1 {
        extent >> mip_level
    } else {
        1
    }
}

/// The width, height or depth of mip level `mip_level` of a texture whose
/// base level measures `extent`.
pub fn mip_extent(extent: u32, mip_level: u32) -> (size: u32)
    requires
        mip_level < 32,
    ensures
        size == mip_extent_spec(extent, mip_level),
        size >= 1,
{
    let shifted: u32 = extent >> mip_level;
    if shifted >= 1 {
        shifted
    } else {
        1
    }
}

/// The items of `items` whose flag in `flags` equals `want`, in order.
pub open spec fn select<T>(items: Seq<T>, flags: Seq<bool>, want: bool) -> Seq<T>
    decreases items.len(),
{
    if items.len() == 0 || flags.len() == 0 {
        Seq::empty()
    } else {
        let rest = select(items.drop_last(), flags.drop_last(), want);
        if flags.last() == want {
            rest.push(items.last())
        } else {
            rest
        }
    }
}

/// The transfer state as a value: the open recording and the submitted
/// ones, oldest first.
pub struct TransferView {
    pub current: RecordingView,
    pub used: Seq<RecordingView>,
}

/// What a flush did.
pub enum FlushOutcome {
    /// The open recording was closed and is to be submitted: `handle` is
    /// its command buffer. `spare` hands back a fresh recording that was
    /// offered and not needed.
    Submitted { handle: u64, fence: u64, spare: Option<VkTransferCommandBuffer> },
    /// Nothing was changed: no submitted recording can be used again yet,
    /// and no fresh one was offered.
    NeedsBuffer,
}

/// The open upload recording and the ones under way on the device.
pub struct VkTransfer {
    current_graphics_buffer: VkTransferCommandBuffer,
    used_graphics_buffers: VecDeque<VkTransferCommandBuffer>,
}

impl View for VkTransfer {
    type V = TransferView;

    closed spec fn view(&self) -> TransferView {
        TransferView {
            current: self.current_graphics_buffer@,
            used: self.used_graphics_buffers@.map_values(|b: VkTransferCommandBuffer| b@),
        }
    }
}

impl VkTransfer {
    /// A transfer state whose open recording is `first`, with nothing
    /// submitted.
    pub fn new(first: VkTransferCommandBuffer) -> (transfer: Self)
        ensures
            transfer@.current == first@,
            transfer@.used.len() == 0,
    {
        VkTransfer { current_graphics_buffer: first, used_graphics_buffers: VecDeque::new() }
    }

    /// The command buffer of the open recording.
    pub fn current_handle(&self) -> (handle: u64)
        ensures
            handle == self@.current.handle,
    {
        self.current_graphics_buffer.cmd_buffer
    }

    /// Number of submitted recordings that have not been retired.
    pub fn used_len(&self) -> (len: usize)
        ensures
            len == self@.used.len(),
    {
        self.used_graphics_buffers.len()
    }

    /// The fence of the submitted recording with index `index`, counted
    /// from the oldest.
    pub fn used_fence(&self, index: usize) -> (fence: u64)
        requires
            index < self@.used.len(),
        ensures
            fence == self@.used[index as int].fence,
    {
        self.used_graphics_buffers[index].fence
    }

    /// Notes that the open recording copies from `src_buffer` into
    /// `texture`: it holds a reference to both from now on.
    pub fn init_texture(&mut self, texture: u64, src_buffer: u64)
        ensures
            final(self)@.used == old(self)@.used,
            final(self)@.current.handle == old(self)@.current.handle,
            final(self)@.current.fence == old(self)@.current.fence,
            final(self)@.current.trackers == old(self)@.current.trackers.with(
                ResourceKind::Buffer,
                src_buffer,
            ).with(ResourceKind::Texture, texture),
    {
        self.current_graphics_buffer.trackers.track_buffer(src_buffer);
        self.current_graphics_buffer.trackers.track_texture(texture);
    }

    /// Retires the submitted recordings whose fence has signalled:
    /// `signaled[i]` says so of the one with index `i`. The others stay, in
    /// order. The retired ones are handed back, with the references they
    /// held up to now.
    pub fn try_free_used_buffers(&mut self, signaled: &Vec<bool>) -> (retired: Vec<
        VkTransferCommandBuffer,
    >)
        requires
            signaled@.len() == old(self)@.used.len(),
        ensures
            final(self)@.current == old(self)@.current,
            final(self)@.used == select(old(self)@.used, signaled@, false),
            retired@.map_values(|b: VkTransferCommandBuffer| b@) == select(
                old(self)@.used,
                signaled@,
                true,
            ),
    {
        let ghost before = self@;
        let mut retired: Vec<VkTransferCommandBuffer> = Vec::new();
        let mut kept: VecDeque<VkTransferCommandBuffer> = VecDeque::new();
        let mut i: usize = 0;
        let n = signaled.len();
        while i < n
            invariant
                i <= n,
                n == signaled@.len(),
                n == before.used.len(),
                self@.current == before.current,
                self@.used == before.used.skip(i as int),
                kept@.map_values(|b: VkTransferCommandBuffer| b@) == select(
                    before.used.take(i as int),
                    signaled@.take(i as int),
                    false,
                ),
                retired@.map_values(|b: VkTransferCommandBuffer| b@) == select(
                    before.used.take(i as int),
                    signaled@.take(i as int),
                    true,
                ),
            decreases n - i,
        {
            let ghost used_now = self@.used;
            let ghost kept_now = kept@.map_values(|b: VkTransferCommandBuffer| b@);
            let ghost retired_now = retired@.map_values(|b: VkTransferCommandBuffer| b@);
            let ghost queue = self.used_graphics_buffers@;
            proof {
                assert(queue.len() == used_now.len());
                assert(used_now.len() == n - i);
            }
            let recording = self.used_graphics_buffers.pop_front().unwrap();
            proof {
                assert(recording@ == used_now[0]);
                assert(used_now[0] == before.used[i as int]);
                assert(self.used_graphics_buffers@ =~= queue.skip(1));
                assert(self@.used =~= used_now.skip(1));
                assert(used_now.skip(1) =~= before.used.skip(i + 1));
                assert(before.used.take(i + 1).drop_last() =~= before.used.take(i as int));
                assert(signaled@.take(i + 1).drop_last() =~= signaled@.take(i as int));
            }
            if signaled[i] {
                retired.push(recording);
                proof {
                    assert(retired@.map_values(|b: VkTransferCommandBuffer| b@) =~= retired_now.push(
                        recording@,
                    ));
                }
            } else {
                kept.push_back(recording);
                proof {
                    assert(kept@.map_values(|b: VkTransferCommandBuffer| b@) =~= kept_now.push(
                        recording@,
                    ));
                }
            }
            i = i + 1;
        }
        proof {
            assert(before.used.take(n as int) =~= before.used);
            assert(signaled@.take(n as int) =~= signaled@);
        }
        self.used_graphics_buffers = kept;
        retired
    }

    /// Whether a flush needs a fresh recording: none is submitted, or the
    /// oldest submitted one has not signalled.
    pub fn needs_fresh_buffer(&self, front_signaled: bool) -> (needed: bool)
        ensures
            needed == !(self@.used.len() > 0 && front_signaled),
    {
        !(self.used_graphics_buffers.len() > 0 && front_signaled)
    }

    /// Closes the open recording for submission and opens the next one.
    /// `front_signaled` says whether the fence of the oldest submitted
    /// recording has signalled. If it has, that recording lets go of its
    /// references and becomes the open one; `fresh` is handed back. If not,
    /// `fresh` becomes the open one; without a `fresh` nothing changes. The
    /// closed recording goes behind the submitted ones.
    pub fn flush(&mut self, front_signaled: bool, fresh: Option<VkTransferCommandBuffer>) -> (outcome:
        FlushOutcome)
        ensures
            old(self)@.used.len() > 0 && front_signaled ==> {
                &&& outcome matches FlushOutcome::Submitted { handle, fence, spare }
                &&& handle == old(self)@.current.handle
                &&& fence == old(self)@.current.fence
                &&& spare == fresh
                &&& final(self)@.current == (RecordingView {
                    trackers: TrackersView::empty(),
                    ..old(self)@.used[0]
                })
                &&& final(self)@.used == old(self)@.used.skip(1).push(old(self)@.current)
            },
            !(old(self)@.used.len() > 0 && front_signaled) && fresh is Some ==> {
                &&& outcome matches FlushOutcome::Submitted { handle, fence, spare }
                &&& handle == old(self)@.current.handle
                &&& fence == old(self)@.current.fence
                &&& spare is None
                &&& final(self)@.current == fresh->0@
                &&& final(self)@.used == old(self)@.used.push(old(self)@.current)
            },
            !(old(self)@.used.len() > 0 && front_signaled) && fresh is None ==> {
                &&& outcome is NeedsBuffer
                &&& final(self)@ == old(self)@
            },
    {
        let ghost before = self@;
        let reuse = self.used_graphics_buffers.len() > 0 && front_signaled;
        let (mut next, spare) = if reuse {
            let mut first = self.used_graphics_buffers.pop_front().unwrap();
            first.trackers.reset();
            (first, fresh)
        } else {
            match fresh {
                Some(recording) => (recording, None),
                None => {
                    return FlushOutcome::NeedsBuffer;
                },
            }
        };
        std::mem::swap(&mut self.current_graphics_buffer, &mut next);
        let handle = next.cmd_buffer;
        let fence = next.fence;
        self.used_graphics_buffers.push_back(next);
        proof {
            if reuse {
                assert(self@.used =~= before.used.skip(1).push(before.current));
            } else {
                assert(self@.used =~= before.used.push(before.current));
            }
        }
        FlushOutcome::Submitted { handle, fence, spare }
    }
}

/// The recordings that [`VkTransfer::try_free_used_buffers`] retires are
/// those whose fence was reported as signalled, and every other one is
/// still held afterwards.
pub proof fn law_retired_only_after_signal<T>(items: Seq<T>, flags: Seq<bool>, i: int)
    requires
        items.len() == flags.len(),
        0 <= i < items.len(),
    ensures
        !flags[i] ==> select(items, flags, false).contains(items[i]),
        flags[i] ==> select(items, flags, true).contains(items[i]),
        forall|k: int|
            0 <= k < select(items, flags, true).len() ==> exists|j: int|
                0 <= j < items.len() && flags[j] && items[j] == #[trigger] select(
                    items,
                    flags,
                    true,
                )[k],
        select(items, flags, false).len() + select(items, flags, true).len() == items.len(),
    decreases items.len(),
{
    let n = items.len() - 1;
    let kept = select(items, flags, false);
    let gone = select(items, flags, true);
    if n > 0 {
        let j = if i < n {
            i
        } else {
            0
        };
        law_retired_only_after_signal(items.drop_last(), flags.drop_last(), j);
    }
    let gone_rest = select(items.drop_last(), flags.drop_last(), true);
    let kept_rest = select(items.drop_last(), flags.drop_last(), false);
    if i == n {
        if flags[i] {
            assert(gone[gone.len() - 1] == items[i]);
        } else {
            assert(kept[kept.len() - 1] == items[i]);
        }
    } else {
        if flags[i] {
            let k = choose|k: int| 0 <= k < gone_rest.len() && gone_rest[k] == items[i];
            assert(gone[k] == items[i]);
        } else {
            let k = choose|k: int| 0 <= k < kept_rest.len() && kept_rest[k] == items[i];
            assert(kept[k] == items[i]);
        }
    }
    assert forall|k: int| 0 <= k < gone.len() implies exists|j: int|
        0 <= j < items.len() && flags[j] && items[j] == #[trigger] gone[k] by {
        if k < gone_rest.len() {
            assert(gone[k] == gone_rest[k]);
            let j = choose|j: int|
                0 <= j < items.drop_last().len() && flags.drop_last()[j] && items.drop_last()[j]
                    == gone_rest[k];
            assert(flags[j] && items[j] == gone[k]);
        } else {
            assert(flags[n] && items[n] == gone[k]);
        }
    }
}

} // verus!
