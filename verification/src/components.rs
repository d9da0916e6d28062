//! Per-entity scene components.  An entity is whatever set of these
//! it carries; there is no entity type hierarchy.

use vstd::prelude::*;
use std::sync::Arc;
use crate::device::{create_uniform_binding, write_buffer, BindGroup, Buffer, Device};
use crate::layout::{LayoutKind, LayoutRegistry};
use crate::model;
use crate::registry::Registry;

verus! {

/// Bit pattern of the 32-bit floating-point value one.
pub const F32_ONE_BITS: u32 = 0x3f800000;

/// Number of bytes of a transform uniform buffer: a 4 by 4 matrix of
/// 32-bit values.
pub const TRANSFORM_BUFFER_SIZE: usize = 64;

/// A debug label; no device footprint.
pub struct Name {
    pub value: String,
}

impl Name {
    pub fn new(value: String) -> (n: Name)
        ensures
            n.value@ == value@,
    {
        Name { value }
    }
}

/// Position and scale of an entity, each coordinate carried as the
/// bit pattern of the 32-bit floating-point value the host computes
/// with.
#[derive(Clone, Copy, Debug, PartialEq, Eq)]
pub struct Transform {
    pub position: [u32; 3],
    pub scale: [u32; 3],
}

impl Transform {
    pub fn new(position: [u32; 3], scale: [u32; 3]) -> (t: Transform)
        ensures
            t.position == position,
            t.scale == scale,
    {
        Transform { position, scale }
    }

    /// The transform laid out for upload: the position, then the scale
    /// padded to a 16-byte boundary with one zero coordinate.
    pub fn aligned(&self) -> (r: ([u32; 3], [u32; 4]))
        ensures
            r.0 == self.position,
            r.1[0] == self.scale[0],
            r.1[1] == self.scale[1],
            r.1[2] == self.scale[2],
            r.1[3] == 0,
    {
        (self.position, [self.scale[0], self.scale[1], self.scale[2], 0])
    }
}

impl Default for Transform {
    /// The identity transform: position zero, scale one.
    fn default() -> (t: Transform)
        ensures
            t.position[0] == 0 && t.position[1] == 0 && t.position[2] == 0,
            t.scale[0] == F32_ONE_BITS && t.scale[1] == F32_ONE_BITS && t.scale[2]
                == F32_ONE_BITS,
    {
        Transform { position: [0, 0, 0], scale: [F32_ONE_BITS, F32_ONE_BITS, F32_ONE_BITS] }
    }
}

/// The per-entity device state read by every pass: the transform, its
/// uniform buffer, and the descriptor set binding that buffer.
pub struct TransformComponent {
    pub transform: Transform,
    pub buffer: Buffer,
    pub bind_group: BindGroup,
}

impl TransformComponent {
    pub open spec fn wf(&self) -> bool {
        &&& Device::bind_group_refs(self.bind_group, seq![self.buffer])
        &&& self.buffer.data@.len() == TRANSFORM_BUFFER_SIZE
    }

    /// Allocates the entity's transform buffer and descriptor set.
    pub fn new(transform: Transform, device: &mut Device, layout: u64) -> (c: TransformComponent)
        requires
            old(device).next_id + 2 <= u64::MAX,
        ensures
            c.wf(),
            c.transform == transform,
            c.buffer.id == old(device).next_id,
            c.bind_group.id == old(device).next_id + 1,
            final(device).next_id == old(device).next_id + 2,
    {
        let (buffer, bind_group) = create_uniform_binding(device, TRANSFORM_BUFFER_SIZE);
        TransformComponent { transform, buffer, bind_group }
    }

    /// Uploads a freshly computed transform matrix into the existing
    /// buffer; the descriptor set is untouched.
    pub fn update_buffer(&mut self, data: &[u8])
        requires
            old(self).wf(),
            data@.len() <= TRANSFORM_BUFFER_SIZE,
        ensures
            final(self).wf(),
            final(self).transform == old(self).transform,
            final(self).bind_group == old(self).bind_group,
            final(self).buffer.id == old(self).buffer.id,
            final(self).buffer.data@ == data@ + old(self).buffer.data@.skip(data@.len() as int),
    {
        write_buffer(&mut self.buffer, data);
        proof {
            assert(self.bind_group.buffers@ =~= seq![self.buffer].map_values(|b: Buffer| b.id));
        }
    }
}

/// A free-standing transform device state: a transform uniform buffer
/// and its descriptor set, without the CPU-side transform.
pub struct Renderable {
    pub transform_buffer: Buffer,
    pub transform_bind_group: BindGroup,
}

impl Renderable {
    pub open spec fn wf(&self) -> bool {
        &&& Device::bind_group_refs(self.transform_bind_group, seq![self.transform_buffer])
        &&& self.transform_buffer.data@.len() == TRANSFORM_BUFFER_SIZE
    }

    /// Allocates a transform buffer and descriptor set from the named
    /// transform layout.
    pub fn new(device: &mut Device, layouts: &LayoutRegistry) -> (r: Renderable)
        requires
            layouts.initialized(),
            old(device).next_id + 2 <= u64::MAX,
        ensures
            r.wf(),
            r.transform_buffer.id == old(device).next_id,
            r.transform_bind_group.id == old(device).next_id + 1,
            final(device).next_id == old(device).next_id + 2,
    {
        let _layout = layouts.get(LayoutKind::Transform);
        let (transform_buffer, transform_bind_group) = create_uniform_binding(
            device,
            TRANSFORM_BUFFER_SIZE,
        );
        Renderable { transform_buffer, transform_bind_group }
    }

    /// Uploads a transform matrix into the existing buffer.
    pub fn update_transform_buffer(&mut self, data: &[u8])
        requires
            old(self).wf(),
            data@.len() <= TRANSFORM_BUFFER_SIZE,
        ensures
            final(self).wf(),
            final(self).transform_bind_group == old(self).transform_bind_group,
            final(self).transform_buffer.id == old(self).transform_buffer.id,
            final(self).transform_buffer.data@ == data@ + old(self).transform_buffer.data@.skip(
                data@.len() as int,
            ),
    {
        write_buffer(&mut self.transform_buffer, data);
        proof {
            assert(self.transform_bind_group.buffers@ =~= seq![self.transform_buffer].map_values(
                |b: Buffer| b.id,
            ));
        }
    }
}

/// A shared reference to an immutable device mesh, by mesh id.
pub struct Mesh {
    pub id: usize,
    pub mesh: Arc<Vec<model::Mesh>>,
}

impl Mesh {
    pub fn new(id: usize, mesh: Arc<Vec<model::Mesh>>) -> (c: Mesh)
        ensures
            c.id == id,
            c.mesh == mesh,
    {
        Mesh { id, mesh }
    }
}

/// A shared reference to a realized material binding: the source asset
/// id and the handle of the realized descriptor set.
pub struct MaterialComponent {
    pub id: usize,
    pub bind_group: u64,
}

impl MaterialComponent {
    /// Resolves `id` through the registry (realizing the material on
    /// first use) and keeps the realized descriptor set's handle.  An
    /// id the registry cannot answer is a construction-order bug,
    /// excluded by contract.
    pub fn new(id: usize, registry: &mut Registry, device: &mut Device, layout: u64) -> (c:
        MaterialComponent)
        requires
            old(registry).wf(),
            old(registry).available(id as int),
            old(device).next_id + 2 <= u64::MAX,
        ensures
            c.id == id,
            final(registry).wf(),
            final(registry).bindings@[id as int] matches Some(g) && c.bind_group == g.bind_group.id,
            final(registry).materials == old(registry).materials,
            final(registry).textures == old(registry).textures,
    {
        let binding = registry.get_material(id, device, layout);
        match binding {
            Some(g) => MaterialComponent { id, bind_group: g.bind_group.id },
            None => MaterialComponent { id, bind_group: 0 },
        }
    }
}

/// A point light; the color channels are 32-bit floating-point bit
/// patterns.
#[derive(Clone, Copy, Debug, PartialEq, Eq)]
pub struct PointLight {
    pub color: [u32; 3],
}

impl PointLight {
    pub fn new(color: [u32; 3]) -> (l: PointLight)
        ensures
            l.color == color,
    {
        PointLight { color }
    }
}

} // verus!
