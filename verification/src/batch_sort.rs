//! Drawing order: the visible parts sorted by the material they are drawn
//! with, so that draws that share a material follow one another.

use crate::drawable::{DrawablePart, DrawableView, RendererStaticDrawable};
use vstd::prelude::*;

verus! {

/// Whether `part` names a part of one of the drawables `scene` that has a
/// material.
pub open spec fn part_valid(scene: Seq<DrawableView>, part: DrawablePart) -> bool {
    &&& part.drawable_index < scene.len()
    &&& part.part_index < scene[part.drawable_index as int].model.materials.len()
}

/// Whether every part of `parts` is valid in `scene`.
pub open spec fn parts_valid(scene: Seq<DrawableView>, parts: Seq<DrawablePart>) -> bool {
    forall|k: int| 0 <= k < parts.len() ==> part_valid(scene, #[trigger] parts[k])
}

/// The key of the material that `part` is drawn with.
pub open spec fn material_key(scene: Seq<DrawableView>, part: DrawablePart) -> u64 {
    scene[part.drawable_index as int].model.materials[part.part_index as int]
}

/// Whether the material keys of `parts` never fall from one part to the
/// next.
pub open spec fn sorted_by_material(scene: Seq<DrawableView>, parts: Seq<DrawablePart>) -> bool {
    forall|i: int, j: int|
        0 <= i <= j < parts.len() ==> material_key(scene, #[trigger] parts[i]) <= material_key(
            scene,
            #[trigger] parts[j],
        )
}

/// Whether the parts that share a material key stand side by side in
/// `parts`: between two parts of one key stands no part of another.
pub open spec fn grouped_by_material(scene: Seq<DrawableView>, parts: Seq<DrawablePart>) -> bool {
    forall|i: int, j: int, k: int|
        0 <= i <= j <= k < parts.len() && material_key(scene, #[trigger] parts[i]) == material_key(
            scene,
            #[trigger] parts[k],
        ) ==> material_key(scene, #[trigger] parts[j]) == material_key(scene, parts[i])
}

/// The material key of `part`.
fn material_of(drawables: &Vec<RendererStaticDrawable>, part: DrawablePart) -> (key: u64)
    requires
        part_valid(drawables@.map_values(|d: RendererStaticDrawable| d@), part),
    ensures
        key == material_key(drawables@.map_values(|d: RendererStaticDrawable| d@), part),
{
    drawables[part.drawable_index].model.material(part.part_index)
}

/// Merges two runs of parts that are sorted by material into one.
fn merge(
    drawables: &Vec<RendererStaticDrawable>,
    left: &Vec<DrawablePart>,
    right: &Vec<DrawablePart>,
) -> (merged: Vec<DrawablePart>)
    requires
        parts_valid(drawables@.map_values(|d: RendererStaticDrawable| d@), left@),
        parts_valid(drawables@.map_values(|d: RendererStaticDrawable| d@), right@),
        sorted_by_material(drawables@.map_values(|d: RendererStaticDrawable| d@), left@),
        sorted_by_material(drawables@.map_values(|d: RendererStaticDrawable| d@), right@),
    ensures
        merged@.to_multiset() == left@.to_multiset().add(right@.to_multiset()),
        sorted_by_material(drawables@.map_values(|d: RendererStaticDrawable| d@), merged@),
        parts_valid(drawables@.map_values(|d: RendererStaticDrawable| d@), merged@),
{
    let ghost scene = drawables@.map_values(|d: RendererStaticDrawable| d@);
    let mut merged: Vec<DrawablePart> = Vec::new();
    let mut i: usize = 0;
    let mut j: usize = 0;
    proof {
        assert(left@.take(0) =~= Seq::<DrawablePart>::empty());
        assert(right@.take(0) =~= Seq::<DrawablePart>::empty());
        merged@.to_multiset_ensures();
        assert(merged@.to_multiset() =~= left@.take(0).to_multiset().add(
            right@.take(0).to_multiset(),
        ));
    }
    while i < left.len() || j < right.len()
        invariant
            i <= left@.len(),
            j <= right@.len(),
            scene == drawables@.map_values(|d: RendererStaticDrawable| d@),
            parts_valid(scene, left@),
            parts_valid(scene, right@),
            sorted_by_material(scene, left@),
            sorted_by_material(scene, right@),
            merged@.to_multiset() == left@.take(i as int).to_multiset().add(
                right@.take(j as int).to_multiset(),
            ),
            sorted_by_material(scene, merged@),
            parts_valid(scene, merged@),
            forall|k: int, a: int|
                0 <= k < merged@.len() && i <= a < left@.len() ==> material_key(
                    scene,
                    #[trigger] merged@[k],
                ) <= material_key(scene, #[trigger] left@[a]),
            forall|k: int, a: int|
                0 <= k < merged@.len() && j <= a < right@.len() ==> material_key(
                    scene,
                    #[trigger] merged@[k],
                ) <= material_key(scene, #[trigger] right@[a]),
        decreases left@.len() - i + right@.len() - j,
    {
        let ghost before = merged@;
        let from_left = if j >= right.len() {
            true
        } else if i >= left.len() {
            false
        } else {
            material_of(drawables, left[i]) <= material_of(drawables, right[j])
        };
        if from_left {
            let part = left[i];
            merged.push(part);
            proof {
                assert(left@.take(i + 1) =~= left@.take(i as int).push(part));
                vstd::seq_lib::to_multiset_build(left@.take(i as int), part);
                vstd::seq_lib::to_multiset_build(before, part);
                assert(merged@.to_multiset() =~= left@.take(i + 1).to_multiset().add(
                    right@.take(j as int).to_multiset(),
                ));
                lemma_push_keeps_sorted(scene, before, part);
            }
            i = i + 1;
        } else {
            let part = right[j];
            merged.push(part);
            proof {
                assert(right@.take(j + 1) =~= right@.take(j as int).push(part));
                vstd::seq_lib::to_multiset_build(right@.take(j as int), part);
                vstd::seq_lib::to_multiset_build(before, part);
                assert(merged@.to_multiset() =~= left@.take(i as int).to_multiset().add(
                    right@.take(j + 1).to_multiset(),
                ));
                lemma_push_keeps_sorted(scene, before, part);
            }
            j = j + 1;
        }
    }
    proof {
        assert(left@.take(i as int) =~= left@);
        assert(right@.take(j as int) =~= right@);
    }
    merged
}

/// A part whose key is not below any key of sorted parts can go behind
/// them.
pub proof fn lemma_push_keeps_sorted(scene: Seq<DrawableView>, parts: Seq<DrawablePart>, part: DrawablePart)
    requires
        sorted_by_material(scene, parts),
        parts_valid(scene, parts),
        part_valid(scene, part),
        forall|k: int|
            0 <= k < parts.len() ==> material_key(scene, #[trigger] parts[k]) <= material_key(
                scene,
                part,
            ),
    ensures
        sorted_by_material(scene, parts.push(part)),
        parts_valid(scene, parts.push(part)),
{
    let more = parts.push(part);
    assert forall|i: int, j: int| 0 <= i <= j < more.len() implies material_key(
        scene,
        #[trigger] more[i],
    ) <= material_key(scene, #[trigger] more[j]) by {
        if j < parts.len() {
            assert(more[i] == parts[i] && more[j] == parts[j]);
        } else if i < parts.len() {
            assert(more[i] == parts[i]);
        }
    }
    assert forall|k: int| 0 <= k < more.len() implies part_valid(scene, #[trigger] more[k]) by {
        if k < parts.len() {
            assert(more[k] == parts[k]);
        }
    }
}

/// The parts of `parts` from `from` up to but without `to`, sorted by
/// material key.
fn sort_range(
    drawables: &Vec<RendererStaticDrawable>,
    parts: &Vec<DrawablePart>,
    from: usize,
    to: usize,
) -> (sorted: Vec<DrawablePart>)
    requires
        from <= to <= parts@.len(),
        parts_valid(drawables@.map_values(|d: RendererStaticDrawable| d@), parts@),
    ensures
        sorted@.to_multiset() == parts@.subrange(from as int, to as int).to_multiset(),
        sorted_by_material(drawables@.map_values(|d: RendererStaticDrawable| d@), sorted@),
        parts_valid(drawables@.map_values(|d: RendererStaticDrawable| d@), sorted@),
    decreases to - from,
{
    let ghost scene = drawables@.map_values(|d: RendererStaticDrawable| d@);
    if to - from <= 1 {
        let mut sorted: Vec<DrawablePart> = Vec::new();
        if to > from {
            sorted.push(parts[from]);
        }
        proof {
            assert(sorted@ =~= parts@.subrange(from as int, to as int));
        }
        return sorted;
    }
    let mid = from + (to - from) / 2;
    let left = sort_range(drawables, parts, from, mid);
    let right = sort_range(drawables, parts, mid, to);
    proof {
        assert(parts@.subrange(from as int, to as int) =~= parts@.subrange(from as int, mid as int)
            + parts@.subrange(mid as int, to as int));
        vstd::seq_lib::lemma_multiset_commutative(
            parts@.subrange(from as int, mid as int),
            parts@.subrange(mid as int, to as int),
        );
    }
    merge(drawables, &left, &right)
}

/// Sorts `parts` by material key, lowest first. The parts stay the same
/// parts, each as often as before.
pub fn sort_parts_by_material(drawables: &Vec<RendererStaticDrawable>, parts: &mut Vec<DrawablePart>)
    requires
        parts_valid(drawables@.map_values(|d: RendererStaticDrawable| d@), old(parts)@),
    ensures
        final(parts)@.to_multiset() == old(parts)@.to_multiset(),
        final(parts)@.len() == old(parts)@.len(),
        sorted_by_material(drawables@.map_values(|d: RendererStaticDrawable| d@), final(parts)@),
        grouped_by_material(drawables@.map_values(|d: RendererStaticDrawable| d@), final(parts)@),
        parts_valid(drawables@.map_values(|d: RendererStaticDrawable| d@), final(parts)@),
{
    let ghost input = parts@;
    let sorted = sort_range(drawables, parts, 0, parts.len());
    proof {
        assert(input.subrange(0, input.len() as int) =~= input);
        vstd::seq_lib::to_multiset_len(input);
        vstd::seq_lib::to_multiset_len(sorted@);
        law_sorted_parts_are_grouped(
            drawables@.map_values(|d: RendererStaticDrawable| d@),
            sorted@,
        );
    }
    *parts = sorted;
}

/// In parts that are sorted by material, the parts of one material stand
/// side by side: no part of another material stands between two of them.
pub proof fn law_sorted_parts_are_grouped(scene: Seq<DrawableView>, parts: Seq<DrawablePart>)
    requires
        sorted_by_material(scene, parts),
    ensures
        grouped_by_material(scene, parts),
{
    assert forall|i: int, j: int, k: int|
        0 <= i <= j <= k < parts.len() && material_key(scene, #[trigger] parts[i]) == material_key(
            scene,
            #[trigger] parts[k],
        ) implies material_key(scene, #[trigger] parts[j]) == material_key(scene, parts[i]) by {
        assert(material_key(scene, parts[i]) <= material_key(scene, parts[j]));
        assert(material_key(scene, parts[j]) <= material_key(scene, parts[k]));
    }
}

} // verus!
