//! Materials: a diffuse color plus up to two optional texture
//! references, realized on the device as one uniform buffer and one
//! descriptor set.
//!
//! Color channels are carried as the bit patterns of the 32-bit
//! floating-point values the host uploads; the core never computes on
//! them, it only moves them into the diffuse buffer.

use vstd::prelude::*;
use crate::device::{BindGroup, Buffer, Device};
use crate::gpu::{Asset, Gpu};
use crate::registry::{ResolveError, TextureStore};

verus! {

/// Number of bytes of the diffuse uniform buffer: three 32-bit color
/// channels.
pub const DIFFUSE_BUFFER_SIZE: usize = 12;

/// An optional reference to a texture asset, by id.
#[derive(Clone, Copy, Debug, PartialEq, Eq)]
pub struct TextureId {
    pub id: Option<usize>,
}

impl TextureId {
    pub fn new(id: Option<usize>) -> (t: TextureId)
        ensures
            t.id == id,
    {
        TextureId { id }
    }
}

/// A CPU-side material: diffuse color (channel bit patterns) and two
/// optional texture references resolved through the texture store.
#[derive(Clone, Copy, Debug, PartialEq, Eq)]
pub struct Material {
    pub diffuse: [u32; 3],
    pub diffuse_texture: TextureId,
    pub normal_texture: TextureId,
}

impl Material {
    pub fn new(diffuse: [u32; 3], diffuse_texture: Option<usize>, normal_texture: Option<usize>) -> (m:
        Material)
        ensures
            m.diffuse == diffuse,
            m.diffuse_texture.id == diffuse_texture,
            m.normal_texture.id == normal_texture,
    {
        Material {
            diffuse,
            diffuse_texture: TextureId::new(diffuse_texture),
            normal_texture: TextureId::new(normal_texture),
        }
    }
}

/// The four bytes of `x`, least significant first.
pub open spec fn u32_le_bytes(x: u32) -> Seq<u8> {
    seq![
        (x & 0xff) as u8,
        ((x >> 8) & 0xff) as u8,
        ((x >> 16) & 0xff) as u8,
        ((x >> 24) & 0xff) as u8,
    ]
}

/// The twelve bytes of a diffuse color, channel by channel, each
/// channel least significant byte first.
pub open spec fn diffuse_bytes(diffuse: [u32; 3]) -> Seq<u8> {
    u32_le_bytes(diffuse[0]) + u32_le_bytes(diffuse[1]) + u32_le_bytes(diffuse[2])
}

/// Appends the four bytes of `x`, least significant first.
fn push_u32_le(out: &mut Vec<u8>, x: u32)
    ensures
        final(out)@ == old(out)@ + u32_le_bytes(x),
{
    proof {
        assert(x & 0xff < 256 && (x >> 8) & 0xff < 256 && (x >> 16) & 0xff < 256 && (x >> 24)
            & 0xff < 256) by (bit_vector);
    }
    out.push((x & 0xff) as u8);
    out.push(((x >> 8) & 0xff) as u8);
    out.push(((x >> 16) & 0xff) as u8);
    out.push(((x >> 24) & 0xff) as u8);
    proof {
        assert(out@ =~= old(out)@ + u32_le_bytes(x));
    }
}

/// The diffuse color as the byte contents of its uniform buffer.
pub fn diffuse_color_bytes(diffuse: &[u32; 3]) -> (v: Vec<u8>)
    ensures
        v@ == diffuse_bytes(*diffuse),
        v@.len() == DIFFUSE_BUFFER_SIZE,
{
    let mut v: Vec<u8> = Vec::new();
    push_u32_le(&mut v, diffuse[0]);
    push_u32_le(&mut v, diffuse[1]);
    push_u32_le(&mut v, diffuse[2]);
    proof {
        assert(v@ =~= diffuse_bytes(*diffuse));
    }
    v
}

impl Asset for Material {
    /// One buffer: the diffuse uniform buffer.
    open spec fn buffer_sizes(&self) -> Seq<int> {
        seq![DIFFUSE_BUFFER_SIZE as int]
    }

    /// The diffuse buffer is created holding the color's bytes.
    open spec fn buffer_contents(&self) -> Seq<Seq<u8>> {
        seq![diffuse_bytes(self.diffuse)]
    }

    open spec fn resolvable(&self, textures: TextureStore) -> bool {
        &&& (self.diffuse_texture.id matches Some(id) ==> textures.has(id as int))
        &&& (self.normal_texture.id matches Some(id) ==> textures.has(id as int))
    }

    /// Realizes the material: the diffuse buffer, plus a descriptor
    /// set referencing it and the resolved texture views in reference
    /// order.  Fails with the offending id when a texture reference
    /// does not resolve.
    fn load(&self, device: &mut Device, layout: u64, textures: &TextureStore) -> (r: Result<
        (Vec<Buffer>, BindGroup),
        ResolveError,
    >) {
        let mut views: Vec<u64> = Vec::new();
        match self.diffuse_texture.id {
            Some(id) => match textures.get(id) {
                Some(view) => views.push(view),
                None => {
                    return Err(ResolveError::MissingTexture { id });
                },
            },
            None => (),
        }
        match self.normal_texture.id {
            Some(id) => match textures.get(id) {
                Some(view) => views.push(view),
                None => {
                    return Err(ResolveError::MissingTexture { id });
                },
            },
            None => (),
        }
        let buffer = device.create_buffer_init(diffuse_color_bytes(&self.diffuse));
        let mut buffer_ids: Vec<u64> = Vec::new();
        buffer_ids.push(buffer.id);
        let bind_group = device.create_bind_group(buffer_ids, views);
        let mut buffers: Vec<Buffer> = Vec::new();
        buffers.push(buffer);
        proof {
            assert(bind_group.buffers@ =~= buffers@.map_values(|b: Buffer| b.id));
            assert(buffers@.map_values(|b: Buffer| b.data@.len() as int) =~= self.buffer_sizes());
            assert(buffers@.map_values(|b: Buffer| b.data@) =~= self.buffer_contents());
        }
        Ok((buffers, bind_group))
    }
}

impl Gpu<Material> {
    /// Rewrites the diffuse uniform buffer in place with the given
    /// color; the descriptor set and the CPU asset are untouched.
    pub fn update_diffuse_buffer(&mut self, diffuse: [u32; 3])
        requires
            old(self).wf(),
        ensures
            final(self).wf(),
            final(self).bind_group == old(self).bind_group,
            final(self).asset == old(self).asset,
            final(self).buffers@[0].id == old(self).buffers@[0].id,
            final(self).buffers@[0].data@ == diffuse_bytes(diffuse),
    {
        proof {
            assert(self.buffers@.map_values(|b: Buffer| b.data@.len() as int)
                == self.asset.buffer_sizes());
            assert(self.buffers@.len() == 1);
            assert(self.buffers@.map_values(|b: Buffer| b.data@.len() as int)[0]
                == DIFFUSE_BUFFER_SIZE as int);
        }
        let bytes = diffuse_color_bytes(&diffuse);
        self.update_buffer(0, bytes.as_slice());
        proof {
            assert(self.buffers@[0].data@ =~= diffuse_bytes(diffuse));
        }
    }
}

} // verus!
