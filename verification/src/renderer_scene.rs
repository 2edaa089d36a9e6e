//! The render thread's registry of drawables and lights, each kept under
//! the id of its entity.

use crate::drawable::{DrawableView, Matrix4, PointLight, RendererStaticDrawable};
use vstd::prelude::*;

verus! {

/// The index of the first occurrence of `entity` in `ids` at or after
/// `from`, or the length of `ids` if there is none.
pub open spec fn position_of(ids: Seq<u64>, entity: u64, from: int) -> int
    decreases ids.len() - from,
{
    if from < 0 || from >= ids.len() {
        ids.len() as int
    } else if ids[from] == entity {
        from
    } else {
        position_of(ids, entity, from + 1)
    }
}

/// A scene as a value: its drawables and its lights, each in the order in
/// which the scene keeps them.
pub struct SceneView {
    pub drawables: Seq<DrawableView>,
    pub lights: Seq<PointLight>,
}

impl SceneView {
    /// The entity ids of the drawables, in order.
    pub open spec fn drawable_ids(self) -> Seq<u64> {
        self.drawables.map_values(|d: DrawableView| d.entity)
    }

    /// The entity ids of the lights, in order.
    pub open spec fn light_ids(self) -> Seq<u64> {
        self.lights.map_values(|l: PointLight| l.entity)
    }

    /// No entity has two drawables or two lights, and each drawable's model
    /// has a material for each part.
    pub open spec fn wf(self) -> bool {
        &&& self.drawable_ids().no_duplicates()
        &&& self.light_ids().no_duplicates()
        &&& forall|i: int| 0 <= i < self.drawables.len() ==> (#[trigger] self.drawables[i]).model.wf()
    }

    /// The entities that have a drawable.
    pub open spec fn live_drawables(self) -> Set<u64> {
        self.drawable_ids().to_set()
    }

    /// The entities that have a light.
    pub open spec fn live_lights(self) -> Set<u64> {
        self.light_ids().to_set()
    }

    /// Where the drawable of `entity` is kept, or the number of drawables
    /// if it has none.
    pub open spec fn drawable_index(self, entity: u64) -> int {
        position_of(self.drawable_ids(), entity, 0)
    }

    /// Where the light of `entity` is kept, or the number of lights if it
    /// has none.
    pub open spec fn light_index(self, entity: u64) -> int {
        position_of(self.light_ids(), entity, 0)
    }

    /// The scene after `drawable` was registered: it takes the place of the
    /// drawable that its entity had, or goes behind the others.
    pub open spec fn with_drawable(self, drawable: DrawableView) -> SceneView {
        let i = self.drawable_index(drawable.entity);
        if i < self.drawables.len() {
            SceneView { drawables: self.drawables.update(i, drawable), ..self }
        } else {
            SceneView { drawables: self.drawables.push(drawable), ..self }
        }
    }

    /// The scene after the drawable of `entity` was unregistered: the last
    /// drawable takes its place. A scene without such a drawable stays as
    /// it is.
    pub open spec fn without_drawable(self, entity: u64) -> SceneView {
        let i = self.drawable_index(entity);
        if i < self.drawables.len() {
            SceneView {
                drawables: self.drawables.update(i, self.drawables.last()).drop_last(),
                ..self
            }
        } else {
            self
        }
    }

    /// The scene after `light` was registered.
    pub open spec fn with_light(self, light: PointLight) -> SceneView {
        let i = self.light_index(light.entity);
        if i < self.lights.len() {
            SceneView { lights: self.lights.update(i, light), ..self }
        } else {
            SceneView { lights: self.lights.push(light), ..self }
        }
    }

    /// The scene after the light of `entity` was unregistered.
    pub open spec fn without_light(self, entity: u64) -> SceneView {
        let i = self.light_index(entity);
        if i < self.lights.len() {
            SceneView { lights: self.lights.update(i, self.lights.last()).drop_last(), ..self }
        } else {
            self
        }
    }

    /// The scene after the drawable of `entity` was moved to `transform`. A
    /// scene without such a drawable stays as it is.
    pub open spec fn with_transform(self, entity: u64, transform: Matrix4) -> SceneView {
        let i = self.drawable_index(entity);
        if i < self.drawables.len() {
            SceneView {
                drawables: self.drawables.update(
                    i,
                    DrawableView { transform, ..self.drawables[i] },
                ),
                ..self
            }
        } else {
            self
        }
    }

    /// The scene after a frame boundary: every drawable that can move has
    /// its transform as its previous transform.
    pub open spec fn with_frame_ended(self) -> SceneView {
        SceneView {
            drawables: self.drawables.map_values(
                |d: DrawableView|
                    if d.can_move {
                        DrawableView { old_transform: d.transform, ..d }
                    } else {
                        d
                    },
            ),
            ..self
        }
    }
}

/// The drawables and lights of the render thread.
pub struct RendererScene {
    static_meshes: Vec<RendererStaticDrawable>,
    point_lights: Vec<PointLight>,
}

impl View for RendererScene {
    type V = SceneView;

    closed spec fn view(&self) -> SceneView {
        SceneView {
            drawables: self.static_meshes@.map_values(|d: RendererStaticDrawable| d@),
            lights: self.point_lights@,
        }
    }
}

impl RendererScene {
    /// The scene without drawables and lights.
    pub fn new() -> (scene: Self)
        ensures
            scene@.drawables.len() == 0,
            scene@.lights.len() == 0,
            scene@.wf(),
    {
        let scene = RendererScene { static_meshes: Vec::new(), point_lights: Vec::new() };
        proof {
            assert(scene@.drawable_ids() =~= Seq::empty());
            assert(scene@.light_ids() =~= Seq::empty());
        }
        scene
    }

    /// The drawables, in the order in which the scene keeps them.
    pub fn static_drawables(&self) -> (drawables: &Vec<RendererStaticDrawable>)
        ensures
            drawables@.map_values(|d: RendererStaticDrawable| d@) == self@.drawables,
    {
        &self.static_meshes
    }

    /// The lights, in the order in which the scene keeps them.
    pub fn point_lights(&self) -> (lights: &Vec<PointLight>)
        ensures
            lights@ == self@.lights,
    {
        &self.point_lights
    }

    /// Where the drawable of `entity` is kept.
    pub fn find_drawable(&self, entity: u64) -> (index: Option<usize>)
        ensures
            match index {
                Some(i) => i == self@.drawable_index(entity) && i < self@.drawables.len()
                    && self@.drawables[i as int].entity == entity,
                None => self@.drawable_index(entity) == self@.drawables.len()
                    && !self@.live_drawables().contains(entity),
            },
    {
        let ghost ids = self@.drawable_ids();
        let mut i: usize = 0;
        while i < self.static_meshes.len()
            invariant
                i <= self.static_meshes@.len(),
                ids == self@.drawable_ids(),
                ids.len() == self.static_meshes@.len(),
                position_of(ids, entity, 0) == position_of(ids, entity, i as int),
                forall|j: int| 0 <= j < i ==> ids[j] != entity,
            decreases self.static_meshes@.len() - i,
        {
            if self.static_meshes[i].entity == entity {
                proof {
                    assert(ids[i as int] == self.static_meshes@[i as int]@.entity);
                    assert(self@.drawables[i as int] == self.static_meshes@[i as int]@);
                }
                return Some(i);
            }
            proof {
                assert(ids[i as int] == self.static_meshes@[i as int]@.entity);
            }
            i = i + 1;
        }
        None
    }

    /// Where the light of `entity` is kept.
    pub fn find_light(&self, entity: u64) -> (index: Option<usize>)
        ensures
            match index {
                Some(i) => i == self@.light_index(entity) && i < self@.lights.len()
                    && self@.lights[i as int].entity == entity,
                None => self@.light_index(entity) == self@.lights.len()
                    && !self@.live_lights().contains(entity),
            },
    {
        let ghost ids = self@.light_ids();
        let mut i: usize = 0;
        while i < self.point_lights.len()
            invariant
                i <= self.point_lights@.len(),
                ids == self@.light_ids(),
                ids.len() == self.point_lights@.len(),
                position_of(ids, entity, 0) == position_of(ids, entity, i as int),
                forall|j: int| 0 <= j < i ==> ids[j] != entity,
            decreases self.point_lights@.len() - i,
        {
            if self.point_lights[i].entity == entity {
                return Some(i);
            }
            i = i + 1;
        }
        None
    }

    /// Registers `drawable` under its entity. A drawable that the entity
    /// already has is replaced, so that no entity ever has two.
    pub fn add_static_drawable(&mut self, drawable: RendererStaticDrawable)
        requires
            old(self)@.wf(),
        ensures
            final(self)@ == old(self)@.with_drawable(drawable@),
            final(self)@.wf(),
            final(self)@.live_drawables() == old(self)@.live_drawables().insert(drawable.entity),
    {
        let ghost before = self@;
        let ghost added = drawable@;
        let _ = drawable.model.part_count();
        proof {
            lemma_register(before.drawable_ids(), drawable.entity);
        }
        match self.find_drawable(drawable.entity) {
            Some(i) => {
                self.static_meshes[i] = drawable;
                proof {
                    assert(self@.drawables =~= before.drawables.update(i as int, added));
                    assert(self@.drawable_ids() =~= before.drawable_ids());
                }
            },
            None => {
                self.static_meshes.push(drawable);
                proof {
                    assert(self@.drawables =~= before.drawables.push(added));
                    assert(self@.drawable_ids() =~= before.drawable_ids().push(added.entity));
                }
            },
        }
    }

    /// Unregisters the drawable of `entity`, if it has one. The last
    /// drawable takes its place.
    pub fn remove_static_drawable(&mut self, entity: u64)
        requires
            old(self)@.wf(),
        ensures
            final(self)@ == old(self)@.without_drawable(entity),
            final(self)@.wf(),
            final(self)@.live_drawables() == old(self)@.live_drawables().remove(entity),
    {
        let ghost before = self@;
        proof {
            lemma_unregister(before.drawable_ids(), entity);
        }
        match self.find_drawable(entity) {
            Some(i) => {
                let _ = self.static_meshes.swap_remove(i);
                proof {
                    assert(self@.drawables =~= before.drawables.update(
                        i as int,
                        before.drawables.last(),
                    ).drop_last());
                    assert(self@.drawable_ids() =~= before.drawable_ids().update(
                        i as int,
                        before.drawable_ids().last(),
                    ).drop_last());
                }
            },
            None => {},
        }
    }

    /// Registers `light` under its entity. A light that the entity already
    /// has is replaced.
    pub fn add_point_light(&mut self, light: PointLight)
        requires
            old(self)@.wf(),
        ensures
            final(self)@ == old(self)@.with_light(light),
            final(self)@.wf(),
            final(self)@.live_lights() == old(self)@.live_lights().insert(light.entity),
    {
        let ghost before = self@;
        proof {
            lemma_register(before.light_ids(), light.entity);
        }
        match self.find_light(light.entity) {
            Some(i) => {
                self.point_lights[i] = light;
                proof {
                    assert(self@.lights =~= before.lights.update(i as int, light));
                    assert(self@.light_ids() =~= before.light_ids());
                }
            },
            None => {
                self.point_lights.push(light);
                proof {
                    assert(self@.light_ids() =~= before.light_ids().push(light.entity));
                }
            },
        }
    }

    /// Unregisters the light of `entity`, if it has one.
    pub fn remove_point_light(&mut self, entity: u64)
        requires
            old(self)@.wf(),
        ensures
            final(self)@ == old(self)@.without_light(entity),
            final(self)@.wf(),
            final(self)@.live_lights() == old(self)@.live_lights().remove(entity),
    {
        let ghost before = self@;
        proof {
            lemma_unregister(before.light_ids(), entity);
        }
        match self.find_light(entity) {
            Some(i) => {
                let _ = self.point_lights.swap_remove(i);
                proof {
                    assert(self@.light_ids() =~= before.light_ids().update(
                        i as int,
                        before.light_ids().last(),
                    ).drop_last());
                }
            },
            None => {},
        }
    }

    /// Moves the drawable of `entity` to `transform`. An entity without a
    /// drawable is passed over in silence.
    pub fn update_transform(&mut self, entity: u64, transform: Matrix4)
        requires
            old(self)@.wf(),
        ensures
            final(self)@ == old(self)@.with_transform(entity, transform),
            final(self)@.wf(),
            final(self)@.live_drawables() == old(self)@.live_drawables(),
    {
        let ghost before = self@;
        match self.find_drawable(entity) {
            Some(i) => {
                self.static_meshes[i].transform = transform;
                proof {
                    assert(self@.drawables =~= before.drawables.update(
                        i as int,
                        DrawableView { transform, ..before.drawables[i as int] },
                    ));
                    assert(self@.drawable_ids() =~= before.drawable_ids());
                }
            },
            None => {},
        }
    }

    /// Marks a frame boundary: every drawable that can move gets its
    /// transform as its previous transform.
    pub fn end_frame(&mut self)
        requires
            old(self)@.wf(),
        ensures
            final(self)@ == old(self)@.with_frame_ended(),
            final(self)@.wf(),
            final(self)@.live_drawables() == old(self)@.live_drawables(),
    {
        let ghost before = self@;
        let mut i: usize = 0;
        while i < self.static_meshes.len()
            invariant
                i <= self.static_meshes@.len(),
                self@.drawables.len() == before.drawables.len(),
                self@.lights == before.lights,
                forall|j: int|
                    0 <= j < i ==> self@.drawables[j] == before.with_frame_ended().drawables[j],
                forall|j: int| i <= j < self@.drawables.len() ==> self@.drawables[j] == before.drawables[j],
            decreases self.static_meshes@.len() - i,
        {
            if self.static_meshes[i].can_move {
                let transform = self.static_meshes[i].transform;
                self.static_meshes[i].old_transform = transform;
            }
            i = i + 1;
        }
        proof {
            assert(self@.drawables =~= before.with_frame_ended().drawables);
            assert(self@.drawable_ids() =~= before.drawable_ids());
        }
    }
}

/// [`position_of`] finds the first occurrence at or after `from`.
pub proof fn lemma_position_of(ids: Seq<u64>, entity: u64, from: int)
    requires
        0 <= from <= ids.len(),
    ensures
        from <= position_of(ids, entity, from) <= ids.len(),
        position_of(ids, entity, from) < ids.len() ==> ids[position_of(ids, entity, from)] == entity,
        forall|j: int| from <= j < position_of(ids, entity, from) ==> ids[j] != entity,
    decreases ids.len() - from,
{
    if from < ids.len() && ids[from] != entity {
        lemma_position_of(ids, entity, from + 1);
    }
}

/// Registering an entity keeps the ids free of duplicates and adds the
/// entity to their set.
pub proof fn lemma_register(ids: Seq<u64>, entity: u64)
    requires
        ids.no_duplicates(),
    ensures
        position_of(ids, entity, 0) < ids.len() <==> ids.contains(entity),
        ids.contains(entity) ==> ids.to_set().insert(entity) == ids.to_set(),
        !ids.contains(entity) ==> ids.push(entity).no_duplicates() && ids.push(entity).to_set()
            == ids.to_set().insert(entity),
{
    lemma_position_of(ids, entity, 0);
    if ids.contains(entity) {
        assert(ids.to_set().insert(entity) =~= ids.to_set());
    } else {
        let pushed = ids.push(entity);
        assert forall|x: u64| pushed.to_set().contains(x) == ids.to_set().insert(entity).contains(
            x,
        ) by {
            if pushed.contains(x) {
                let k = choose|k: int| 0 <= k < pushed.len() && pushed[k] == x;
                if k < ids.len() {
                    assert(ids[k] == x);
                }
            }
            if ids.contains(x) {
                let k = choose|k: int| 0 <= k < ids.len() && ids[k] == x;
                assert(pushed[k] == x);
            }
            if x == entity {
                assert(pushed[ids.len() as int] == x);
            }
        }
        assert(pushed.to_set() =~= ids.to_set().insert(entity));
    }
}

/// Unregistering an entity by putting the last id in its place keeps the
/// ids free of duplicates and takes the entity out of their set.
pub proof fn lemma_unregister(ids: Seq<u64>, entity: u64)
    requires
        ids.no_duplicates(),
    ensures
        position_of(ids, entity, 0) < ids.len() <==> ids.contains(entity),
        !ids.contains(entity) ==> ids.to_set().remove(entity) == ids.to_set(),
        ids.contains(entity) ==> ({
            let i = position_of(ids, entity, 0);
            let rest = ids.update(i, ids.last()).drop_last();
            rest.no_duplicates() && rest.to_set() == ids.to_set().remove(entity)
        }),
{
    lemma_position_of(ids, entity, 0);
    if !ids.contains(entity) {
        assert(ids.to_set().remove(entity) =~= ids.to_set());
    } else {
        let i = position_of(ids, entity, 0);
        let n = ids.len() - 1;
        let rest = ids.update(i, ids.last()).drop_last();
        assert forall|a: int, b: int| 0 <= a < rest.len() && 0 <= b < rest.len() && a != b implies rest[a]
            != rest[b] by {
            let pa = if a == i {
                n
            } else {
                a
            };
            let pb = if b == i {
                n
            } else {
                b
            };
            assert(rest[a] == ids[pa] && rest[b] == ids[pb]);
        }
        assert forall|x: u64| rest.to_set().contains(x) == ids.to_set().remove(entity).contains(
            x,
        ) by {
            if rest.contains(x) {
                let k = choose|k: int| 0 <= k < rest.len() && rest[k] == x;
                let pk = if k == i {
                    n
                } else {
                    k
                };
                assert(ids[pk] == x);
                assert(pk != i);
            }
            if ids.contains(x) && x != entity {
                let k = choose|k: int| 0 <= k < ids.len() && ids[k] == x;
                if k == n {
                    assert(rest[i] == x);
                } else {
                    assert(rest[k] == x);
                }
            }
        }
        assert(rest.to_set() =~= ids.to_set().remove(entity));
    }
}

/// Registering a drawable keeps a scene well formed and adds its entity
/// to the live drawables; the lights stay.
pub proof fn lemma_with_drawable(scene: SceneView, drawable: DrawableView)
    requires
        scene.wf(),
        drawable.model.wf(),
    ensures
        scene.with_drawable(drawable).wf(),
        scene.with_drawable(drawable).live_drawables() == scene.live_drawables().insert(
            drawable.entity,
        ),
        scene.with_drawable(drawable).lights == scene.lights,
{
    let ids = scene.drawable_ids();
    let after = scene.with_drawable(drawable);
    lemma_register(ids, drawable.entity);
    lemma_position_of(ids, drawable.entity, 0);
    let i = scene.drawable_index(drawable.entity);
    if i < scene.drawables.len() {
        assert(after.drawable_ids() =~= ids);
    } else {
        assert(after.drawable_ids() =~= ids.push(drawable.entity));
    }
}

/// Unregistering a drawable keeps a scene well formed and takes its entity
/// out of the live drawables; the lights stay.
pub proof fn lemma_without_drawable(scene: SceneView, entity: u64)
    requires
        scene.wf(),
    ensures
        scene.without_drawable(entity).wf(),
        scene.without_drawable(entity).live_drawables() == scene.live_drawables().remove(entity),
        scene.without_drawable(entity).lights == scene.lights,
{
    let ids = scene.drawable_ids();
    let after = scene.without_drawable(entity);
    lemma_unregister(ids, entity);
    lemma_position_of(ids, entity, 0);
    let i = scene.drawable_index(entity);
    if i < scene.drawables.len() {
        assert(after.drawable_ids() =~= ids.update(i, ids.last()).drop_last());
    }
}

/// Registering a light keeps a scene well formed and adds its entity to
/// the live lights; the drawables stay.
pub proof fn lemma_with_light(scene: SceneView, light: PointLight)
    requires
        scene.wf(),
    ensures
        scene.with_light(light).wf(),
        scene.with_light(light).live_lights() == scene.live_lights().insert(light.entity),
        scene.with_light(light).drawables == scene.drawables,
{
    let ids = scene.light_ids();
    let after = scene.with_light(light);
    lemma_register(ids, light.entity);
    lemma_position_of(ids, light.entity, 0);
    let i = scene.light_index(light.entity);
    if i < scene.lights.len() {
        assert(after.light_ids() =~= ids);
    } else {
        assert(after.light_ids() =~= ids.push(light.entity));
    }
}

/// Unregistering a light keeps a scene well formed and takes its entity
/// out of the live lights; the drawables stay.
pub proof fn lemma_without_light(scene: SceneView, entity: u64)
    requires
        scene.wf(),
    ensures
        scene.without_light(entity).wf(),
        scene.without_light(entity).live_lights() == scene.live_lights().remove(entity),
        scene.without_light(entity).drawables == scene.drawables,
{
    let ids = scene.light_ids();
    let after = scene.without_light(entity);
    lemma_unregister(ids, entity);
    lemma_position_of(ids, entity, 0);
    let i = scene.light_index(entity);
    if i < scene.lights.len() {
        assert(after.light_ids() =~= ids.update(i, ids.last()).drop_last());
    }
}

/// Moving a drawable and ending a frame keep a scene well formed and leave
/// the live sets as they are.
pub proof fn lemma_transforms_keep_live(scene: SceneView, entity: u64, transform: Matrix4)
    requires
        scene.wf(),
    ensures
        scene.with_transform(entity, transform).wf(),
        scene.with_transform(entity, transform).drawable_ids() == scene.drawable_ids(),
        scene.with_transform(entity, transform).lights == scene.lights,
        scene.with_frame_ended().wf(),
        scene.with_frame_ended().drawable_ids() == scene.drawable_ids(),
        scene.with_frame_ended().lights == scene.lights,
{
    lemma_position_of(scene.drawable_ids(), entity, 0);
    assert(scene.with_transform(entity, transform).drawable_ids() =~= scene.drawable_ids());
    assert(scene.with_frame_ended().drawable_ids() =~= scene.drawable_ids());
}

} // verus!
