//! The entity-component store: a struct of arrays keyed by entity id.
//!
//! An entity is an index; which components it carries is the only
//! thing that types it.  Queries are intersections of the component
//! arrays, in entity (insertion) order.

use vstd::prelude::*;
use crate::components::{MaterialComponent, Mesh, Name, PointLight, TransformComponent};

verus! {

/// One slot per component kind per entity; entity `e` carries a
/// component exactly when slot `e` of that array is occupied.
pub struct World {
    pub names: Vec<Option<Name>>,
    pub transforms: Vec<Option<TransformComponent>>,
    pub meshes: Vec<Option<Mesh>>,
    pub materials: Vec<Option<MaterialComponent>>,
    pub lights: Vec<Option<PointLight>>,
}

impl World {
    /// Every component array has one slot per entity.
    pub open spec fn wf(&self) -> bool {
        &&& self.transforms@.len() == self.names@.len()
        &&& self.meshes@.len() == self.names@.len()
        &&& self.materials@.len() == self.names@.len()
        &&& self.lights@.len() == self.names@.len()
    }

    pub open spec fn num_entities(&self) -> int {
        self.names@.len() as int
    }

    pub open spec fn has_name(&self, e: int) -> bool {
        0 <= e < self.num_entities() && self.names@[e] is Some
    }

    pub open spec fn has_transform(&self, e: int) -> bool {
        0 <= e < self.num_entities() && self.transforms@[e] is Some
    }

    pub open spec fn has_mesh(&self, e: int) -> bool {
        0 <= e < self.num_entities() && self.meshes@[e] is Some
    }

    pub open spec fn has_material(&self, e: int) -> bool {
        0 <= e < self.num_entities() && self.materials@[e] is Some
    }

    pub open spec fn has_light(&self, e: int) -> bool {
        0 <= e < self.num_entities() && self.lights@[e] is Some
    }

    /// Membership in the opaque and shadow passes: exactly the
    /// conjunction of carrying a transform, a mesh and a material.
    pub open spec fn is_renderable(&self, e: int) -> bool {
        self.has_transform(e) && self.has_mesh(e) && self.has_material(e)
    }

    /// The renderable entities among the first `n`, in entity order.
    pub open spec fn renderables_upto(&self, n: int) -> Seq<int>
        decreases n,
    {
        if n <= 0 {
            Seq::empty()
        } else if self.is_renderable(n - 1) {
            self.renderables_upto(n - 1).push(n - 1)
        } else {
            self.renderables_upto(n - 1)
        }
    }

    /// The query the passes iterate: every renderable entity, in
    /// entity order.
    pub open spec fn renderable_ids(&self) -> Seq<int> {
        self.renderables_upto(self.num_entities())
    }

    /// The light-carrying entities among the first `n`, in entity
    /// order.
    pub open spec fn lights_upto(&self, n: int) -> Seq<int>
        decreases n,
    {
        if n <= 0 {
            Seq::empty()
        } else if self.has_light(n - 1) {
            self.lights_upto(n - 1).push(n - 1)
        } else {
            self.lights_upto(n - 1)
        }
    }

    /// The light-carrying entities, in entity order.
    pub open spec fn light_ids(&self) -> Seq<int> {
        self.lights_upto(self.num_entities())
    }

    pub fn new() -> (w: World)
        ensures
            w.wf(),
            w.num_entities() == 0,
    {
        World {
            names: Vec::new(),
            transforms: Vec::new(),
            meshes: Vec::new(),
            materials: Vec::new(),
            lights: Vec::new(),
        }
    }

    pub fn num_entities_exec(&self) -> (n: usize)
        ensures
            n == self.num_entities(),
    {
        self.names.len()
    }

    /// Adds an entity carrying no components yet; its id is the
    /// result.
    pub fn create_entity(&mut self) -> (e: usize)
        requires
            old(self).wf(),
        ensures
            final(self).wf(),
            e == old(self).num_entities(),
            final(self).names@ == old(self).names@.push(None),
            final(self).transforms@ == old(self).transforms@.push(None),
            final(self).meshes@ == old(self).meshes@.push(None),
            final(self).materials@ == old(self).materials@.push(None),
            final(self).lights@ == old(self).lights@.push(None),
    {
        let e = self.names.len();
        self.names.push(None);
        self.transforms.push(None);
        self.meshes.push(None);
        self.materials.push(None);
        self.lights.push(None);
        e
    }

    pub fn set_name(&mut self, e: usize, name: Name)
        requires
            old(self).wf(),
            e < old(self).num_entities(),
        ensures
            final(self).wf(),
            final(self).names@ == old(self).names@.update(e as int, Some(name)),
            final(self).transforms == old(self).transforms,
            final(self).meshes == old(self).meshes,
            final(self).materials == old(self).materials,
            final(self).lights == old(self).lights,
    {
        self.names.set(e, Some(name));
    }

    pub fn set_transform(&mut self, e: usize, c: TransformComponent)
        requires
            old(self).wf(),
            e < old(self).num_entities(),
        ensures
            final(self).wf(),
            final(self).transforms@ == old(self).transforms@.update(e as int, Some(c)),
            final(self).names == old(self).names,
            final(self).meshes == old(self).meshes,
            final(self).materials == old(self).materials,
            final(self).lights == old(self).lights,
    {
        self.transforms.set(e, Some(c));
    }

    pub fn set_mesh(&mut self, e: usize, c: Mesh)
        requires
            old(self).wf(),
            e < old(self).num_entities(),
        ensures
            final(self).wf(),
            final(self).meshes@ == old(self).meshes@.update(e as int, Some(c)),
            final(self).names == old(self).names,
            final(self).transforms == old(self).transforms,
            final(self).materials == old(self).materials,
            final(self).lights == old(self).lights,
    {
        self.meshes.set(e, Some(c));
    }

    pub fn set_material(&mut self, e: usize, c: MaterialComponent)
        requires
            old(self).wf(),
            e < old(self).num_entities(),
        ensures
            final(self).wf(),
            final(self).materials@ == old(self).materials@.update(e as int, Some(c)),
            final(self).names == old(self).names,
            final(self).transforms == old(self).transforms,
            final(self).meshes == old(self).meshes,
            final(self).lights == old(self).lights,
    {
        self.materials.set(e, Some(c));
    }

    pub fn set_light(&mut self, e: usize, c: PointLight)
        requires
            old(self).wf(),
            e < old(self).num_entities(),
        ensures
            final(self).wf(),
            final(self).lights@ == old(self).lights@.update(e as int, Some(c)),
            final(self).names == old(self).names,
            final(self).transforms == old(self).transforms,
            final(self).meshes == old(self).meshes,
            final(self).materials == old(self).materials,
    {
        self.lights.set(e, Some(c));
    }

    pub fn remove_transform(&mut self, e: usize)
        requires
            old(self).wf(),
            e < old(self).num_entities(),
        ensures
            final(self).wf(),
            final(self).transforms@ == old(self).transforms@.update(e as int, None),
            final(self).names == old(self).names,
            final(self).meshes == old(self).meshes,
            final(self).materials == old(self).materials,
            final(self).lights == old(self).lights,
            !final(self).is_renderable(e as int),
    {
        self.transforms.set(e, None);
    }

    pub fn remove_mesh(&mut self, e: usize)
        requires
            old(self).wf(),
            e < old(self).num_entities(),
        ensures
            final(self).wf(),
            final(self).meshes@ == old(self).meshes@.update(e as int, None),
            final(self).names == old(self).names,
            final(self).transforms == old(self).transforms,
            final(self).materials == old(self).materials,
            final(self).lights == old(self).lights,
            !final(self).is_renderable(e as int),
    {
        self.meshes.set(e, None);
    }

    pub fn remove_material(&mut self, e: usize)
        requires
            old(self).wf(),
            e < old(self).num_entities(),
        ensures
            final(self).wf(),
            final(self).materials@ == old(self).materials@.update(e as int, None),
            final(self).names == old(self).names,
            final(self).transforms == old(self).transforms,
            final(self).meshes == old(self).meshes,
            final(self).lights == old(self).lights,
            !final(self).is_renderable(e as int),
    {
        self.materials.set(e, None);
    }

    /// Whether entity `e` is in the opaque and shadow pass query.
    pub fn renderable(&self, e: usize) -> (r: bool)
        requires
            self.wf(),
            e < self.num_entities(),
        ensures
            r == self.is_renderable(e as int),
    {
        self.transforms[e].is_some() && self.meshes[e].is_some() && self.materials[e].is_some()
    }

    /// The conjunctive query over {transform, mesh, material}: the ids
    /// of the entities every pass draws, in entity order.
    pub fn renderables(&self) -> (r: Vec<usize>)
        requires
            self.wf(),
        ensures
            r@.map_values(|e: usize| e as int) == self.renderable_ids(),
    {
        let n = self.names.len();
        let mut r: Vec<usize> = Vec::new();
        let mut e: usize = 0;
        while e < n
            invariant
                e <= n,
                n == self.num_entities(),
                self.wf(),
                r@.map_values(|x: usize| x as int) == self.renderables_upto(e as int),
            decreases n - e,
        {
            if self.renderable(e) {
                r.push(e);
                proof {
                    assert(r@.map_values(|x: usize| x as int) =~= self.renderables_upto(
                        e as int,
                    ).push(e as int));
                }
            }
            e = e + 1;
        }
        r
    }

    /// The entities carrying a point light, in entity order.
    pub fn light_entities(&self) -> (r: Vec<usize>)
        requires
            self.wf(),
        ensures
            r@.map_values(|e: usize| e as int) == self.light_ids(),
    {
        let n = self.names.len();
        let mut r: Vec<usize> = Vec::new();
        let mut e: usize = 0;
        while e < n
            invariant
                e <= n,
                n == self.num_entities(),
                self.wf(),
                r@.map_values(|x: usize| x as int) == self.lights_upto(e as int),
            decreases n - e,
        {
            if self.lights[e].is_some() {
                r.push(e);
                proof {
                    assert(r@.map_values(|x: usize| x as int) =~= self.lights_upto(e as int).push(
                        e as int,
                    ));
                }
            }
            e = e + 1;
        }
        r
    }

    /// Every id the query yields is a renderable entity, every
    /// renderable entity is in the query, and the ids come in strictly
    /// increasing entity order.
    pub proof fn lemma_renderables_upto_membership(&self, n: int)
        ensures
            forall|e: int| #[trigger]
                self.renderables_upto(n).contains(e) <==> 0 <= e < n && self.is_renderable(e),
            forall|i: int, j: int|
                0 <= i < j < self.renderables_upto(n).len() ==> self.renderables_upto(n)[i]
                    < self.renderables_upto(n)[j],
            forall|i: int|
                0 <= i < self.renderables_upto(n).len() ==> 0 <= #[trigger] self.renderables_upto(
                    n,
                )[i] < n,
        decreases n,
    {
        if n > 0 {
            self.lemma_renderables_upto_membership(n - 1);
            assert forall|e: int| #[trigger]
                self.renderables_upto(n).contains(e) <==> 0 <= e < n && self.is_renderable(e) by {
                if self.renderables_upto(n).contains(e) {
                    let s = self.renderables_upto(n);
                    let i = choose|i: int| 0 <= i < s.len() && s[i] == e;
                    if self.is_renderable(n - 1) {
                        if i < s.len() - 1 {
                            assert(self.renderables_upto(n - 1).contains(e));
                        }
                    } else {
                        assert(self.renderables_upto(n - 1).contains(e));
                    }
                }
                if 0 <= e < n && self.is_renderable(e) {
                    if e < n - 1 {
                        assert(self.renderables_upto(n - 1).contains(e));
                        let i = choose|i: int|
                            0 <= i < self.renderables_upto(n - 1).len() && #[trigger] self.renderables_upto(
                                n - 1,
                            )[i] == e;
                        assert(self.renderables_upto(n)[i] == e);
                    } else {
                        assert(self.renderables_upto(n).last() == e);
                    }
                }
            }
        }
    }

    /// The opaque-pass query is exactly the conjunction of carrying a
    /// transform, a mesh and a material: an entity missing any one of
    /// the three is not in the query.
    pub proof fn lemma_query_is_conjunction(&self, e: int)
        requires
            self.wf(),
        ensures
            self.renderable_ids().contains(e) <==> (self.has_transform(e) && self.has_mesh(e)
                && self.has_material(e)),
    {
        self.lemma_renderables_upto_membership(self.num_entities());
    }
}

} // verus!
