//! Asset lookup: texture views by id, and the id-keyed material
//! registry that lazily realizes materials on the device.

use vstd::prelude::*;
use crate::device::Device;
use crate::gpu::{Asset, Gpu};
use crate::material::{diffuse_bytes, Material};

verus! {

/// Error returned when an asset cannot be realized because a nested
/// asset reference does not resolve.
#[derive(Clone, Copy, Debug, PartialEq, Eq, Structural)]
pub enum ResolveError {
    /// The asset refers to a texture id that is not in the store.
    MissingTexture { id: usize },
}

/// Realized texture views, keyed by texture id (the index).
pub struct TextureStore {
    pub views: Vec<u64>,
}

impl TextureStore {
    /// True when `id` is the id of a realized texture.
    pub open spec fn has(&self, id: int) -> bool {
        0 <= id < self.views@.len()
    }

    pub open spec fn view_of(&self, id: int) -> u64 {
        self.views@[id]
    }

    pub fn new() -> (s: TextureStore)
        ensures
            s.views@ == Seq::<u64>::empty(),
    {
        TextureStore { views: Vec::new() }
    }

    /// Records a realized texture view; its id is the result.
    pub fn add(&mut self, view: u64) -> (id: usize)
        ensures
            final(self).views@ == old(self).views@.push(view),
            id == old(self).views@.len(),
    {
        let id = self.views.len();
        self.views.push(view);
        id
    }

    /// The view for `id`, or nothing when `id` was never added.
    pub fn get(&self, id: usize) -> (r: Option<u64>)
        ensures
            r matches Some(v) ==> self.has(id as int) && v == self.view_of(id as int),
            r is None <==> !self.has(id as int),
    {
        if id < self.views.len() {
            Some(self.views[id])
        } else {
            None
        }
    }
}

/// The id-keyed material table: maps an asset id to the shared
/// realized binding for that material, realizing it on the device the
/// first time it is requested and answering from the cache thereafter.
/// Ids of materials are their registration order; entries are never
/// evicted.
pub struct Registry {
    pub textures: TextureStore,
    pub materials: Vec<Material>,
    pub bindings: Vec<Option<Gpu<Material>>>,
}

impl Registry {
    /// One binding slot per registered material; every realized
    /// binding is well formed, realizes exactly the registered
    /// material, and was realized from textures the store still holds.
    pub open spec fn wf(&self) -> bool {
        &&& self.bindings@.len() == self.materials@.len()
        &&& forall|i: int|
            0 <= i < self.bindings@.len() && self.bindings@[i] is Some ==> (
            #[trigger] self.bindings@[i])->Some_0.wf() && self.bindings@[i]->Some_0.asset
                == self.materials@[i] && self.materials@[i].resolvable(self.textures)
    }

    /// True when `id` was registered.
    pub open spec fn registered(&self, id: int) -> bool {
        0 <= id < self.materials@.len()
    }

    /// True when a request for `id` is answered with a binding: the id
    /// is registered and its material's texture references resolve.
    pub open spec fn available(&self, id: int) -> bool {
        self.registered(id) && self.materials@[id].resolvable(self.textures)
    }

    pub fn new() -> (r: Registry)
        ensures
            r.wf(),
            r.materials@.len() == 0,
            r.textures.views@.len() == 0,
    {
        Registry { textures: TextureStore::new(), materials: Vec::new(), bindings: Vec::new() }
    }

    /// Records a realized texture view; its id is the result.
    pub fn add_texture(&mut self, view: u64) -> (id: usize)
        requires
            old(self).wf(),
        ensures
            final(self).wf(),
            final(self).textures.views@ == old(self).textures.views@.push(view),
            final(self).materials == old(self).materials,
            final(self).bindings == old(self).bindings,
            id == old(self).textures.views@.len(),
    {
        let id = self.textures.add(view);
        proof {
            assert forall|i: int|
                0 <= i < self.bindings@.len() && self.bindings@[i] is Some implies (
            #[trigger] self.bindings@[i])->Some_0.wf() && self.bindings@[i]->Some_0.asset
                == self.materials@[i] && self.materials@[i].resolvable(self.textures) by {
                assert(old(self).bindings@[i] is Some);
            }
        }
        id
    }

    /// Registers a material; its id is the result.  Registration does
    /// not realize the material: that happens on first request.
    pub fn add_material(&mut self, material: Material) -> (id: usize)
        requires
            old(self).wf(),
        ensures
            final(self).wf(),
            final(self).materials@ == old(self).materials@.push(material),
            final(self).textures == old(self).textures,
            id == old(self).materials@.len(),
            final(self).bindings@ == old(self).bindings@.push(None),
    {
        let id = self.materials.len();
        self.materials.push(material);
        self.bindings.push(None);
        id
    }

    /// The shared binding for `id`: the cached one, or the one
    /// realized now and cached.  An id that was never registered is
    /// answered with nothing, every time, and changes nothing; a
    /// material whose texture references do not resolve is also
    /// answered with nothing and is not cached in a broken state.
    pub fn get_material(&mut self, id: usize, device: &mut Device, layout: u64) -> (r: Option<
        &Gpu<Material>,
    >)
        requires
            old(self).wf(),
            old(device).next_id + 2 <= u64::MAX,
        ensures
            final(self).wf(),
            r is Some <==> old(self).available(id as int),
            r matches Some(g) ==> g.wf() && g.asset == old(self).materials@[id as int],
            r matches Some(g) ==> final(self).bindings@[id as int] == Some(*g),
            final(self).materials == old(self).materials,
            final(self).textures == old(self).textures,
            final(self).bindings@.len() == old(self).bindings@.len(),
            forall|i: int|
                0 <= i < old(self).bindings@.len() && i != id ==> final(self).bindings@[i] == old(
                    self,
                ).bindings@[i],
            !old(self).registered(id as int) ==> *final(self) == *old(self) && *final(device)
                == *old(device),
            old(device).next_id <= final(device).next_id <= old(device).next_id + 2,
    {
        if id >= self.materials.len() {
            return None;
        }
        if self.bindings[id].is_some() {
            return self.bindings[id].as_ref();
        }
        let material = self.materials[id];
        match Gpu::<Material>::new(material, device, layout, &self.textures) {
            Ok(binding) => {
                self.bindings.set(id, Some(binding));
                self.bindings[id].as_ref()
            },
            Err(_) => None,
        }
    }

    /// The editor's mutation path: rewrites the registered material's
    /// diffuse color and, when the material is already realized,
    /// rewrites its realized diffuse buffer in place in the same step,
    /// so the edit is visible to the next frame that reads it and the
    /// descriptor set is never recreated.  Texture references are
    /// untouched.
    pub fn update_material_diffuse(&mut self, id: usize, diffuse: [u32; 3])
        requires
            old(self).wf(),
            old(self).registered(id as int),
        ensures
            final(self).wf(),
            final(self).textures == old(self).textures,
            final(self).materials@.len() == old(self).materials@.len(),
            final(self).materials@[id as int].diffuse == diffuse,
            final(self).materials@[id as int].diffuse_texture == old(self).materials@[
                id as int
            ].diffuse_texture,
            final(self).materials@[id as int].normal_texture == old(self).materials@[
                id as int
            ].normal_texture,
            forall|i: int|
                0 <= i < old(self).materials@.len() && i != id ==> final(self).materials@[i] == old(
                    self,
                ).materials@[i],
            final(self).bindings@.len() == old(self).bindings@.len(),
            forall|i: int|
                0 <= i < old(self).bindings@.len() && i != id ==> final(self).bindings@[i] == old(
                    self,
                ).bindings@[i],
            old(self).bindings@[id as int] is None ==> final(self).bindings@[id as int] is None,
            old(self).bindings@[id as int] is Some ==> (final(self).bindings@[
                id as int
            ] matches Some(g) && g.bind_group == old(self).bindings@[id as int]->Some_0.bind_group
                && g.buffers@[0].id == old(self).bindings@[id as int]->Some_0.buffers@[0].id
                && g.buffers@[0].data@ == diffuse_bytes(diffuse)),
    {
        let old_material = self.materials[id];
        let new_material = Material {
            diffuse,
            diffuse_texture: old_material.diffuse_texture,
            normal_texture: old_material.normal_texture,
        };
        self.materials.set(id, new_material);
        let binding_slot = self.bindings.remove(id);
        match binding_slot {
            Some(mut g) => {
                g.update_diffuse_buffer(diffuse);
                g.asset = new_material;
                self.bindings.insert(id, Some(g));
            },
            None => {
                self.bindings.insert(id, None);
            },
        }
        proof {
            assert(self.bindings@ =~= old(self).bindings@.update(
                id as int,
                self.bindings@[id as int],
            ));
            assert forall|i: int|
                0 <= i < self.bindings@.len() && self.bindings@[i] is Some implies (
            #[trigger] self.bindings@[i])->Some_0.wf() && self.bindings@[i]->Some_0.asset
                == self.materials@[i] && self.materials@[i].resolvable(self.textures) by {
                if i != id {
                    assert(old(self).bindings@[i] is Some);
                }
            }
        }
    }
}

} // verus!
