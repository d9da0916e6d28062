//! Shadow-casting point lights: per light, six cube-face depth
//! attachments with matching descriptor sets, plus the one aggregate
//! light descriptor set the opaque pass binds.

use vstd::prelude::*;
use crate::device::{
    create_uniform_binding, write_buffer, BindGroup, Buffer, Device,
};
use crate::world::World;

verus! {

/// The cap on shadow-casting lights; lights found beyond it are
/// silently excluded from shadowing (they stay in the scene).
pub const MAX_SHADOW_CASTERS: usize = 16;

/// Depth attachments per caster: one per cube face.
pub const CUBE_FACES: usize = 6;

/// Driver handles one caster allocates: per face, one attachment view,
/// one face buffer and one descriptor set.
pub const CASTER_ID_COUNT: usize = 3 * CUBE_FACES;

/// Driver handles a full light manager allocates: a capped number of
/// casters plus the aggregate buffer and descriptor set.
pub const LIGHT_MANAGER_ID_COUNT: usize = CASTER_ID_COUNT * MAX_SHADOW_CASTERS + 2;

/// Number of bytes of one cube-face uniform buffer: a 4 by 4 face
/// view-projection matrix of 32-bit values.
pub const SHADOW_FACE_BUFFER_SIZE: usize = 64;

/// Number of bytes of one light's entry in the aggregate light
/// buffer: a padded position vector and a padded color vector of
/// 32-bit values.
pub const LIGHT_ENTRY_SIZE: usize = 32;

/// One shadow-casting light: the scene entity it was found on, and
/// six cube faces, each with a depth attachment, a face uniform
/// buffer and the descriptor set binding that buffer.
pub struct ShadowCaster {
    pub entity: usize,
    pub views: Vec<u64>,
    pub buffers: Vec<Buffer>,
    pub bind_groups: Vec<BindGroup>,
}

impl ShadowCaster {
    pub open spec fn wf(&self) -> bool {
        &&& self.views@.len() == CUBE_FACES
        &&& self.buffers@.len() == CUBE_FACES
        &&& self.bind_groups@.len() == CUBE_FACES
        &&& forall|f: int|
            0 <= f < CUBE_FACES ==> Device::bind_group_refs(
                #[trigger] self.bind_groups@[f],
                seq![self.buffers@[f]],
            )
        &&& forall|f: int|
            0 <= f < CUBE_FACES ==> (#[trigger] self.buffers@[f]).data@.len()
                == SHADOW_FACE_BUFFER_SIZE
    }

    /// Allocates the six faces of one caster.
    pub fn new(entity: usize, device: &mut Device) -> (c: ShadowCaster)
        requires
            old(device).next_id + CASTER_ID_COUNT <= u64::MAX,
        ensures
            c.wf(),
            c.entity == entity,
            final(device).next_id == old(device).next_id + CASTER_ID_COUNT,
    {
        let mut views: Vec<u64> = Vec::new();
        let mut buffers: Vec<Buffer> = Vec::new();
        let mut bind_groups: Vec<BindGroup> = Vec::new();
        let mut f: usize = 0;
        while f < CUBE_FACES
            invariant
                f <= CUBE_FACES,
                views@.len() == f,
                buffers@.len() == f,
                bind_groups@.len() == f,
                device.next_id == old(device).next_id + 3 * f,
                old(device).next_id + CASTER_ID_COUNT <= u64::MAX,
                forall|k: int|
                    0 <= k < f ==> Device::bind_group_refs(
                        #[trigger] bind_groups@[k],
                        seq![buffers@[k]],
                    ),
                forall|k: int|
                    0 <= k < f ==> (#[trigger] buffers@[k]).data@.len() == SHADOW_FACE_BUFFER_SIZE,
            decreases CUBE_FACES - f,
        {
            let view = device.create_texture_view();
            let (buffer, bind_group) = create_uniform_binding(device, SHADOW_FACE_BUFFER_SIZE);
            views.push(view);
            buffers.push(buffer);
            bind_groups.push(bind_group);
            f = f + 1;
        }
        ShadowCaster { entity, views, buffers, bind_groups }
    }

    /// Uploads a recomputed face view transform into the existing face
    /// buffer; attachments and descriptor sets are untouched.
    pub fn update_face_buffer(&mut self, face: usize, data: &[u8])
        requires
            old(self).wf(),
            face < CUBE_FACES,
            data@.len() <= SHADOW_FACE_BUFFER_SIZE,
        ensures
            final(self).wf(),
            final(self).entity == old(self).entity,
            final(self).views == old(self).views,
            final(self).bind_groups == old(self).bind_groups,
            forall|k: int|
                0 <= k < CUBE_FACES && k != face ==> final(self).buffers@[k] == old(
                    self,
                ).buffers@[k],
            final(self).buffers@[face as int].id == old(self).buffers@[face as int].id,
            final(self).buffers@[face as int].data@ == data@ + old(self).buffers@[
                face as int
            ].data@.skip(data@.len() as int),
    {
        let mut buffer = self.buffers.remove(face);
        write_buffer(&mut buffer, data);
        self.buffers.insert(face, buffer);
        proof {
            assert(self.buffers@ =~= old(self).buffers@.update(
                face as int,
                self.buffers@[face as int],
            ));
            assert forall|f: int| 0 <= f < CUBE_FACES implies Device::bind_group_refs(
                #[trigger] self.bind_groups@[f],
                seq![self.buffers@[f]],
            ) by {
                assert(seq![self.buffers@[f]].map_values(|b: Buffer| b.id) =~= seq![
                    old(self).buffers@[f],
                ].map_values(|b: Buffer| b.id));
            }
        }
    }
}

/// All shadow-casting lights of a scene, capped, in entity order, and
/// the aggregate light state the opaque pass binds once per frame.
pub struct LightManager {
    pub point_shadows: Vec<ShadowCaster>,
    pub lights_buffer: Buffer,
    pub bind_group: BindGroup,
}

impl LightManager {
    pub open spec fn wf(&self) -> bool {
        &&& self.point_shadows@.len() <= MAX_SHADOW_CASTERS
        &&& forall|i: int|
            0 <= i < self.point_shadows@.len() ==> (#[trigger] self.point_shadows@[i]).wf()
    }

    /// How many casters a scene with `lights` light-carrying entities
    /// gets: all of them, up to the cap.
    pub open spec fn active_casters(lights: int) -> int {
        if lights >= MAX_SHADOW_CASTERS {
            MAX_SHADOW_CASTERS as int
        } else {
            lights
        }
    }

    /// Scans the scene once for point lights, in entity order, and
    /// allocates cube-face shadow resources for the first sixteen;
    /// lights beyond the cap stay in the scene but get no shadow
    /// attachment, silently.
    pub fn new(device: &mut Device, layout: u64, world: &World) -> (m: LightManager)
        requires
            world.wf(),
            old(device).next_id + LIGHT_MANAGER_ID_COUNT <= u64::MAX,
        ensures
            m.wf(),
            m.point_shadows@.len() == LightManager::active_casters(world.light_ids().len() as int),
            forall|i: int|
                0 <= i < m.point_shadows@.len() ==> (#[trigger] m.point_shadows@[i]).entity as int
                    == world.light_ids()[i],
    {
        let lights = world.light_entities();
        let mut point_shadows: Vec<ShadowCaster> = Vec::new();
        let mut i: usize = 0;
        while i < lights.len() && i < MAX_SHADOW_CASTERS
            invariant
                i <= lights@.len(),
                i <= MAX_SHADOW_CASTERS,
                lights@.map_values(|e: usize| e as int) == world.light_ids(),
                point_shadows@.len() == i,
                device.next_id == old(device).next_id + (CASTER_ID_COUNT as int) * i,
                old(device).next_id + LIGHT_MANAGER_ID_COUNT <= u64::MAX,
                forall|k: int| 0 <= k < i ==> (#[trigger] point_shadows@[k]).wf(),
                forall|k: int|
                    0 <= k < i ==> (#[trigger] point_shadows@[k]).entity as int
                        == world.light_ids()[k],
            decreases lights@.len() - i,
        {
            proof {
                assert((CASTER_ID_COUNT as int) * (i as int) + (CASTER_ID_COUNT as int)
                    == (CASTER_ID_COUNT as int) * (i as int + 1)) by (nonlinear_arith);
                assert((CASTER_ID_COUNT as int) * (i as int + 1) <= (CASTER_ID_COUNT as int) * (
                MAX_SHADOW_CASTERS as int)) by (nonlinear_arith)
                    requires
                        0 <= i as int + 1 <= MAX_SHADOW_CASTERS as int,
                        CASTER_ID_COUNT as int >= 0,
                ;
            }
            let caster = ShadowCaster::new(lights[i], device);
            point_shadows.push(caster);
            i = i + 1;
        }
        let (lights_buffer, bind_group) = create_uniform_binding(
            device,
            LIGHT_ENTRY_SIZE * MAX_SHADOW_CASTERS,
        );
        LightManager { point_shadows, lights_buffer, bind_group }
    }
}

} // verus!
