//! The camera's device state: one uniform buffer for the view
//! projection and the descriptor set binding it.

use vstd::prelude::*;
use crate::device::{create_uniform_binding, write_buffer, BindGroup, Buffer, Device};

verus! {

/// Number of bytes of the camera uniform buffer: a 4 by 4 view
/// -projection matrix plus one padded position vector, each entry a
/// 32-bit value.
pub const CAMERA_BUFFER_SIZE: usize = 80;

/// The camera as the passes see it: a uniform buffer, rewritten once
/// per frame, and the descriptor set bound once per opaque pass.
pub struct Camera {
    pub buffer: Buffer,
    pub bind_group: BindGroup,
}

impl Camera {
    pub open spec fn wf(&self) -> bool {
        &&& Device::bind_group_refs(self.bind_group, seq![self.buffer])
        &&& self.buffer.data@.len() == CAMERA_BUFFER_SIZE
    }

    /// Allocates the camera buffer and its descriptor set.
    pub fn new(device: &mut Device, layout: u64) -> (c: Camera)
        requires
            old(device).next_id + 2 <= u64::MAX,
        ensures
            c.wf(),
            c.buffer.id == old(device).next_id,
            c.bind_group.id == old(device).next_id + 1,
            final(device).next_id == old(device).next_id + 2,
    {
        let (buffer, bind_group) = create_uniform_binding(device, CAMERA_BUFFER_SIZE);
        Camera { buffer, bind_group }
    }

    /// Uploads freshly computed camera state into the existing buffer;
    /// the descriptor set is untouched.
    pub fn update_buffer(&mut self, data: &[u8])
        requires
            old(self).wf(),
            data@.len() <= CAMERA_BUFFER_SIZE,
        ensures
            final(self).wf(),
            final(self).bind_group == old(self).bind_group,
            final(self).buffer.id == old(self).buffer.id,
            final(self).buffer.data@ == data@ + old(self).buffer.data@.skip(data@.len() as int),
    {
        write_buffer(&mut self.buffer, data);
        proof {
            assert(self.bind_group.buffers@ =~= seq![self.buffer].map_values(|b: Buffer| b.id));
        }
    }
}

} // verus!
