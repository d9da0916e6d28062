//! Model of the GPU device: an allocator of distinct driver handles.
//!
//! Every driver-level object (buffer, descriptor set, texture view,
//! layout, pipeline) is identified by a `u64` handle that the device
//! hands out exactly once.  Two objects created by different calls
//! therefore never share a handle, which is what "identity" means in
//! the contracts of the rest of the crate.

use vstd::prelude::*;

verus! {

/// A GPU buffer: a driver handle plus its current readable contents.
/// The size of `data` is fixed at creation; writes replace a prefix
/// of the contents and never resize the buffer.
pub struct Buffer {
    pub id: u64,
    pub data: Vec<u8>,
}

/// A descriptor set: a driver handle plus the handles of the buffers
/// and texture views it binds, in binding order.  The referenced
/// resources are fixed at creation; rewriting a buffer's contents
/// never changes the descriptor set.
pub struct BindGroup {
    pub id: u64,
    pub buffers: Vec<u64>,
    pub textures: Vec<u64>,
}

/// A render pipeline: a driver handle plus the handles of the
/// resource layouts it was built against, in set order.
pub struct Pipeline {
    pub id: u64,
    pub layouts: Vec<u64>,
}

/// Width and height of a 2-dimensional attachment.
#[derive(Clone, Copy, Debug, PartialEq, Eq, Structural)]
pub struct Extent {
    pub width: u32,
    pub height: u32,
}

/// The device: the single source of driver handles.
pub struct Device {
    /// The next handle this device will hand out.
    pub next_id: u64,
}

impl Device {
    /// True when the buffer handles of `bg` are exactly the handles of
    /// `buffers`, in order: the descriptor set references the buffers
    /// created alongside it.
    pub open spec fn bind_group_refs(bg: BindGroup, buffers: Seq<Buffer>) -> bool {
        bg.buffers@ == buffers.map_values(|b: Buffer| b.id)
    }

    pub fn new() -> (d: Device)
        ensures
            d.next_id == 0,
    {
        Device { next_id: 0 }
    }

    /// Hands out the next unused handle.
    pub fn fresh_id(&mut self) -> (h: u64)
        requires
            old(self).next_id < u64::MAX,
        ensures
            h == old(self).next_id,
            final(self).next_id == old(self).next_id + 1,
    {
        let h = self.next_id;
        self.next_id = self.next_id + 1;
        h
    }

    /// Allocates a resource-layout descriptor.
    pub fn create_layout(&mut self) -> (h: u64)
        requires
            old(self).next_id < u64::MAX,
        ensures
            h == old(self).next_id,
            final(self).next_id == old(self).next_id + 1,
    {
        self.fresh_id()
    }

    /// Allocates a texture view (a depth attachment face, a sampled
    /// texture, or a surface target).
    pub fn create_texture_view(&mut self) -> (h: u64)
        requires
            old(self).next_id < u64::MAX,
        ensures
            h == old(self).next_id,
            final(self).next_id == old(self).next_id + 1,
    {
        self.fresh_id()
    }

    /// Allocates a buffer of `size` zero-initialized bytes.
    pub fn create_buffer(&mut self, size: usize) -> (b: Buffer)
        requires
            old(self).next_id < u64::MAX,
        ensures
            b.id == old(self).next_id,
            final(self).next_id == old(self).next_id + 1,
            b.data@ == Seq::new(size as nat, |i: int| 0u8),
    {
        let id = self.fresh_id();
        Buffer { id, data: zero_bytes(size) }
    }

    /// Allocates a buffer initialized with `contents`.
    pub fn create_buffer_init(&mut self, contents: Vec<u8>) -> (b: Buffer)
        requires
            old(self).next_id < u64::MAX,
        ensures
            b.id == old(self).next_id,
            final(self).next_id == old(self).next_id + 1,
            b.data@ == contents@,
    {
        let id = self.fresh_id();
        Buffer { id, data: contents }
    }

    /// Allocates a descriptor set binding the given buffers and
    /// texture views, in binding order.
    pub fn create_bind_group(&mut self, buffers: Vec<u64>, textures: Vec<u64>) -> (bg: BindGroup)
        requires
            old(self).next_id < u64::MAX,
        ensures
            bg.id == old(self).next_id,
            final(self).next_id == old(self).next_id + 1,
            bg.buffers@ == buffers@,
            bg.textures@ == textures@,
    {
        let id = self.fresh_id();
        BindGroup { id, buffers, textures }
    }

    /// Allocates a render pipeline built against the given resource
    /// layouts, in set order.
    pub fn create_pipeline(&mut self, layouts: Vec<u64>) -> (p: Pipeline)
        requires
            old(self).next_id < u64::MAX,
        ensures
            p.id == old(self).next_id,
            final(self).next_id == old(self).next_id + 1,
            p.layouts@ == layouts@,
    {
        let id = self.fresh_id();
        Pipeline { id, layouts }
    }
}

/// A vector of `n` zero bytes.
fn zero_bytes(n: usize) -> (v: Vec<u8>)
    ensures
        v@ == Seq::new(n as nat, |i: int| 0u8),
{
    let mut v: Vec<u8> = Vec::new();
    let mut i: usize = 0;
    while i < n
        invariant
            i <= n,
            v@ == Seq::new(i as nat, |j: int| 0u8),
        decreases n - i,
    {
        v.push(0u8);
        i = i + 1;
        proof {
            assert(v@ =~= Seq::new(i as nat, |j: int| 0u8));
        }
    }
    proof {
        assert(v@ =~= Seq::new(n as nat, |j: int| 0u8));
    }
    v
}

/// Allocates one zero-initialized uniform buffer of `size` bytes and
/// the descriptor set that binds it alone.
pub fn create_uniform_binding(device: &mut Device, size: usize) -> (r: (Buffer, BindGroup))
    requires
        old(device).next_id + 2 <= u64::MAX,
    ensures
        Device::bind_group_refs(r.1, seq![r.0]),
        r.0.data@ == Seq::new(size as nat, |i: int| 0u8),
        r.0.id == old(device).next_id,
        r.1.id == old(device).next_id + 1,
        final(device).next_id == old(device).next_id + 2,
{
    let buffer = device.create_buffer(size);
    let mut ids: Vec<u64> = Vec::new();
    ids.push(buffer.id);
    let bind_group = device.create_bind_group(ids, Vec::new());
    proof {
        assert(bind_group.buffers@ =~= seq![buffer].map_values(|b: Buffer| b.id));
    }
    (buffer, bind_group)
}

/// Overwrites the first `data.len()` bytes of the buffer, as a queued
/// buffer write would: the handle and the size never change.
pub fn write_buffer(buffer: &mut Buffer, data: &[u8])
    requires
        data@.len() <= old(buffer).data@.len(),
    ensures
        final(buffer).id == old(buffer).id,
        final(buffer).data@.len() == old(buffer).data@.len(),
        final(buffer).data@ == data@ + old(buffer).data@.skip(data@.len() as int),
{
    let old_len = buffer.data.len();
    let mut new_data: Vec<u8> = Vec::new();
    let mut i: usize = 0;
    while i < data.len()
        invariant
            i <= data@.len(),
            new_data@ == data@.subrange(0, i as int),
        decreases data@.len() - i,
    {
        new_data.push(data[i]);
        i = i + 1;
        proof {
            assert(new_data@ =~= data@.subrange(0, i as int));
        }
    }
    proof {
        assert(new_data@ =~= data@);
    }
    let mut j: usize = data.len();
    while j < old_len
        invariant
            data@.len() <= j <= old_len,
            *buffer == *old(buffer),
            old_len == buffer.data@.len(),
            new_data@ == data@ + buffer.data@.subrange(data@.len() as int, j as int),
        decreases old_len - j,
    {
        let byte = buffer.data[j];
        new_data.push(byte);
        j = j + 1;
        proof {
            assert(new_data@ =~= data@ + buffer.data@.subrange(data@.len() as int, j as int));
        }
    }
    buffer.data = new_data;
    proof {
        assert(buffer.data@ =~= data@ + old(buffer).data@.skip(data@.len() as int));
    }
}

} // verus!
