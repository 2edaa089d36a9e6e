//! Which parts a frame draws: one entry for each part of each drawable that
//! the camera sees.
//!
//! Whether the camera sees a bounding box is found out by the caller, who
//! hands in one verdict for each drawable. A drawable without a bounding
//! box is never drawn.

use crate::drawable::{DrawablePart, DrawableView, RendererStaticDrawable};
use smallvec::SmallVec;
use vstd::prelude::*;

verus! {

/// Number of drawables that are culled as one unit of work.
pub const CHUNK_SIZE: usize = 64;

/// Whether the drawable with index `i` is drawn: it has a bounding box, and
/// the verdict on it says that the camera sees the box.
pub open spec fn is_seen(drawable: DrawableView, verdicts: Seq<bool>, i: int) -> bool {
    drawable.model.bounding_box is Some && 0 <= i < verdicts.len() && verdicts[i]
}

/// The parts of the drawable with index `drawable_index`, which has `count`
/// of them, in order.
pub open spec fn parts_of(drawable_index: int, count: nat) -> Seq<DrawablePart> {
    Seq::new(
        count,
        |p: int| DrawablePart { drawable_index: drawable_index as usize, part_index: p as usize },
    )
}

/// The parts of one drawable that are drawn: all, or none.
pub open spec fn seen_parts_of(drawables: Seq<DrawableView>, verdicts: Seq<bool>, i: int) -> Seq<
    DrawablePart,
> {
    if is_seen(drawables[i], verdicts, i) {
        parts_of(i, drawables[i].model.parts.len())
    } else {
        Seq::empty()
    }
}

/// The parts that are drawn of the drawables with indices from `from` up to
/// but without `to`, drawable after drawable.
pub open spec fn visible_parts(
    drawables: Seq<DrawableView>,
    verdicts: Seq<bool>,
    from: int,
    to: int,
) -> Seq<DrawablePart>
    decreases to - from,
{
    if to <= from || from < 0 || to > drawables.len() {
        Seq::empty()
    } else {
        visible_parts(drawables, verdicts, from, to - 1) + seen_parts_of(drawables, verdicts, to - 1)
    }
}

/// The index of the first drawable of chunk `chunk_index` among `count`
/// drawables, or `count` for a chunk behind the last one.
pub open spec fn chunk_start(chunk_index: int, count: int) -> int {
    if chunk_index * CHUNK_SIZE <= count {
        chunk_index * CHUNK_SIZE
    } else {
        count
    }
}

/// The index behind the last drawable of chunk `chunk_index` among `count`
/// drawables.
pub open spec fn chunk_end(chunk_index: int, count: int) -> int {
    if chunk_start(chunk_index, count) + CHUNK_SIZE <= count {
        chunk_start(chunk_index, count) + CHUNK_SIZE
    } else {
        count
    }
}

/// The parts that one chunk has found and not yet handed on: a
/// `smallvec::SmallVec` with room for 64 parts in place. The verifier sees
/// nothing inside it.
#[verifier::external_body]
pub struct ChunkBuffer {
    parts: SmallVec<[DrawablePart; 64]>,
}

/// The parts that a chunk buffer holds, in the order in which they were
/// pushed.
pub uninterp spec fn chunk_buffer_parts(buffer: ChunkBuffer) -> Seq<DrawablePart>;

/// `SmallVec::new`: a buffer that holds nothing.
#[verifier::external_body]
fn chunk_buffer_new() -> (buffer: ChunkBuffer)
    ensures
        chunk_buffer_parts(buffer) == Seq::<DrawablePart>::empty(),
{
    ChunkBuffer { parts: SmallVec::new() }
}

/// `SmallVec::len`: the number of parts held.
#[verifier::external_body]
fn chunk_buffer_len(buffer: &ChunkBuffer) -> (len: usize)
    ensures
        len == chunk_buffer_parts(*buffer).len(),
{
    buffer.parts.len()
}

/// `SmallVec::capacity`: how many parts the buffer holds without growing,
/// which is at least what it holds and at least the inline size.
#[verifier::external_body]
fn chunk_buffer_capacity(buffer: &ChunkBuffer) -> (capacity: usize)
    ensures
        capacity >= chunk_buffer_parts(*buffer).len(),
        capacity >= 64,
{
    buffer.parts.capacity()
}

/// `SmallVec::push`: `part` goes behind the parts held.
#[verifier::external_body]
fn chunk_buffer_push(buffer: &mut ChunkBuffer, part: DrawablePart)
    ensures
        chunk_buffer_parts(*final(buffer)) == chunk_buffer_parts(*old(buffer)).push(part),
{
    buffer.parts.push(part)
}

/// `SmallVec::clear`: the buffer holds nothing afterwards.
#[verifier::external_body]
fn chunk_buffer_clear(buffer: &mut ChunkBuffer)
    ensures
        chunk_buffer_parts(*final(buffer)) == Seq::<DrawablePart>::empty(),
{
    buffer.parts.clear()
}

/// `SmallVec::as_slice`: the parts held, as a slice.
#[verifier::external_body]
fn chunk_buffer_as_slice(buffer: &ChunkBuffer) -> (parts: &[DrawablePart])
    ensures
        parts@ == chunk_buffer_parts(*buffer),
{
    buffer.parts.as_slice()
}

/// Moves what `buffer` holds behind the parts of `parts`.
fn flush_chunk_buffer(buffer: &mut ChunkBuffer, parts: &mut Vec<DrawablePart>)
    ensures
        final(parts)@ == old(parts)@ + chunk_buffer_parts(*old(buffer)),
        chunk_buffer_parts(*final(buffer)) == Seq::<DrawablePart>::empty(),
{
    let ghost before = parts@;
    let held = chunk_buffer_as_slice(buffer);
    parts.extend_from_slice(held);
    proof {
        assert(parts@ =~= before + chunk_buffer_parts(*buffer));
    }
    chunk_buffer_clear(buffer);
}

/// Culls one chunk of `drawables`: puts behind `visible_parts` one entry for
/// each part of each drawable of the chunk that has a bounding box and
/// whose verdict says that the camera sees it, in the order of the
/// drawables and of their parts. A drawable without a verdict is not drawn.
pub fn cull_chunk(
    chunk_index: usize,
    drawables: &Vec<RendererStaticDrawable>,
    verdicts: &Vec<bool>,
    global_parts: &mut Vec<DrawablePart>,
)
    ensures
        final(global_parts)@ == old(global_parts)@ + visible_parts(
            drawables@.map_values(|d: RendererStaticDrawable| d@),
            verdicts@,
            chunk_start(chunk_index as int, drawables@.len() as int),
            chunk_end(chunk_index as int, drawables@.len() as int),
        ),
{
    let ghost views = drawables@.map_values(|d: RendererStaticDrawable| d@);
    let ghost before = global_parts@;
    let count = drawables.len();
    if chunk_index > count / CHUNK_SIZE {
        proof {
            assert(global_parts@ =~= before + Seq::<DrawablePart>::empty());
        }
        return ;
    }
    let start = chunk_index * CHUNK_SIZE;
    let end = if count - start >= CHUNK_SIZE {
        start + CHUNK_SIZE
    } else {
        count
    };
    let mut chunk_visible_parts = chunk_buffer_new();
    let mut index = start;
    proof {
        assert(before + Seq::<DrawablePart>::empty() =~= before);
    }
    while index < end
        invariant
            start <= index <= end <= count,
            count == drawables@.len(),
            views == drawables@.map_values(|d: RendererStaticDrawable| d@),
            global_parts@ + chunk_buffer_parts(chunk_visible_parts) == before + visible_parts(
                views,
                verdicts@,
                start as int,
                index as int,
            ),
        decreases end - index,
    {
        let ghost done = visible_parts(views, verdicts@, start as int, index as int);
        let model = &drawables[index].model;
        let part_count = model.part_count();
        proof {
            assert(views[index as int] == drawables@[index as int]@);
        }
        if model.bounding_box().is_some() && index < verdicts.len() && verdicts[index] {
            let ghost all = parts_of(index as int, part_count as nat);
            let mut part_index: usize = 0;
            proof {
                assert(all.take(0) =~= Seq::<DrawablePart>::empty());
                assert(before + done + all.take(0) =~= before + done);
            }
            while part_index < part_count
                invariant
                    part_index <= part_count,
                    all == parts_of(index as int, part_count as nat),
                    global_parts@ + chunk_buffer_parts(chunk_visible_parts) == before + done
                        + all.take(part_index as int),
                decreases part_count - part_index,
            {
                let ghost sum = global_parts@ + chunk_buffer_parts(chunk_visible_parts);
                if chunk_buffer_len(&chunk_visible_parts) == chunk_buffer_capacity(
                    &chunk_visible_parts,
                ) {
                    flush_chunk_buffer(&mut chunk_visible_parts, global_parts);
                    proof {
                        assert(global_parts@ + chunk_buffer_parts(chunk_visible_parts) =~= sum);
                    }
                }
                let ghost held = chunk_buffer_parts(chunk_visible_parts);
                let ghost flushed = global_parts@;
                chunk_buffer_push(
                    &mut chunk_visible_parts,
                    DrawablePart { drawable_index: index, part_index },
                );
                proof {
                    assert(all.take(part_index + 1) =~= all.take(part_index as int).push(
                        all[part_index as int],
                    ));
                    assert(flushed + held.push(all[part_index as int]) =~= (flushed + held).push(
                        all[part_index as int],
                    ));
                    assert(before + done + all.take(part_index + 1) =~= (before + done + all.take(
                        part_index as int,
                    )).push(all[part_index as int]));
                }
                part_index = part_index + 1;
            }
            proof {
                assert(all.take(part_count as int) =~= all);
                assert(before + done + all =~= before + (done + all));
            }
        } else {
            proof {
                assert(done + Seq::<DrawablePart>::empty() =~= done);
            }
        }
        index = index + 1;
    }
    flush_chunk_buffer(&mut chunk_visible_parts, global_parts);
}

/// The parts drawn of a run of drawables are those of its first stretch
/// followed by those of the rest.
pub proof fn lemma_visible_parts_split(
    drawables: Seq<DrawableView>,
    verdicts: Seq<bool>,
    from: int,
    mid: int,
    to: int,
)
    requires
        0 <= from <= mid <= to <= drawables.len(),
    ensures
        visible_parts(drawables, verdicts, from, to) == visible_parts(drawables, verdicts, from, mid)
            + visible_parts(drawables, verdicts, mid, to),
    decreases to - mid,
{
    let left = visible_parts(drawables, verdicts, from, mid);
    if mid == to {
        assert(left + Seq::<DrawablePart>::empty() =~= left);
    } else {
        lemma_visible_parts_split(drawables, verdicts, from, mid, to - 1);
        let last = seen_parts_of(drawables, verdicts, to - 1);
        assert((left + visible_parts(drawables, verdicts, mid, to - 1)) + last =~= left + (
        visible_parts(drawables, verdicts, mid, to - 1) + last));
    }
}

/// How often `part` stands among the parts of drawable `i`: once if it is
/// one of them, else never.
pub proof fn lemma_parts_of_count(i: int, count: nat, part: DrawablePart)
    requires
        0 <= i <= usize::MAX,
        count <= usize::MAX,
    ensures
        parts_of(i, count).to_multiset().count(part) == if part.drawable_index == i
            && part.part_index < count {
            1nat
        } else {
            0nat
        },
    decreases count,
{
    broadcast use vstd::multiset::group_multiset_axioms;

    if count == 0 {
        assert(parts_of(i, count) =~= Seq::<DrawablePart>::empty());
        parts_of(i, count).to_multiset_ensures();
    } else {
        let shorter = parts_of(i, (count - 1) as nat);
        let last = DrawablePart { drawable_index: i as usize, part_index: (count - 1) as usize };
        assert(parts_of(i, count) =~= shorter.push(last));
        vstd::seq_lib::to_multiset_build(shorter, last);
        lemma_parts_of_count(i, (count - 1) as nat, part);
    }
}

/// A drawable that the camera does not see, or that has no bounding box,
/// has no entry among the visible parts; one that the camera sees has
/// exactly one entry for each part of its mesh. No entry names a drawable
/// or a part that is not there.
pub proof fn law_visible_parts_exact(
    drawables: Seq<DrawableView>,
    verdicts: Seq<bool>,
    to: int,
    part: DrawablePart,
)
    requires
        0 <= to <= drawables.len() <= usize::MAX,
        forall|i: int| 0 <= i < drawables.len() ==> (#[trigger] drawables[i]).model.parts.len() <= usize::MAX,
    ensures
        visible_parts(drawables, verdicts, 0, to).to_multiset().count(part) == if part.drawable_index
            < to && is_seen(
            drawables[part.drawable_index as int],
            verdicts,
            part.drawable_index as int,
        ) && part.part_index < drawables[part.drawable_index as int].model.parts.len() {
            1nat
        } else {
            0nat
        },
    decreases to,
{
    broadcast use vstd::multiset::group_multiset_axioms;

    if to == 0 {
        visible_parts(drawables, verdicts, 0, to).to_multiset_ensures();
    } else {
        let before = visible_parts(drawables, verdicts, 0, to - 1);
        let last = seen_parts_of(drawables, verdicts, to - 1);
        vstd::seq_lib::lemma_multiset_commutative(before, last);
        law_visible_parts_exact(drawables, verdicts, to - 1, part);
        if is_seen(drawables[to - 1], verdicts, to - 1) {
            lemma_parts_of_count(to - 1, drawables[to - 1].model.parts.len(), part);
        } else {
            last.to_multiset_ensures();
        }
    }
}

/// Every visible part names a part of a drawable that has its material.
pub proof fn lemma_visible_parts_valid(
    drawables: Seq<DrawableView>,
    verdicts: Seq<bool>,
    from: int,
    to: int,
)
    requires
        0 <= from <= to <= drawables.len() <= usize::MAX,
        forall|i: int| 0 <= i < drawables.len() ==> (#[trigger] drawables[i]).model.wf(),
        forall|i: int| 0 <= i < drawables.len() ==> (#[trigger] drawables[i]).model.parts.len() <= usize::MAX,
    ensures
        crate::batch_sort::parts_valid(drawables, visible_parts(drawables, verdicts, from, to)),
    decreases to - from,
{
    if from < to {
        lemma_visible_parts_valid(drawables, verdicts, from, to - 1);
        let before = visible_parts(drawables, verdicts, from, to - 1);
        let last = seen_parts_of(drawables, verdicts, to - 1);
        let all = visible_parts(drawables, verdicts, from, to);
        assert forall|k: int| 0 <= k < all.len() implies crate::batch_sort::part_valid(
            drawables,
            #[trigger] all[k],
        ) by {
            if k < before.len() {
                assert(all[k] == before[k]);
            } else {
                assert(all[k] == last[k - before.len()]);
            }
        }
    }
}

} // verus!
