//! The asset capability and the generic owner pairing a CPU asset
//! with the device buffers and descriptor set realized from it.

use vstd::prelude::*;
use crate::device::{Buffer, BindGroup, Device};
use crate::registry::{ResolveError, TextureStore};

verus! {

/// A CPU-side resource that can produce its device-side realization:
/// a list of buffers plus one descriptor set referencing them.
pub trait Asset: Sized {
    /// The sizes, in bytes, of the buffers this asset realizes.
    spec fn buffer_sizes(&self) -> Seq<int>;

    /// The contents the realized buffers are created with.
    spec fn buffer_contents(&self) -> Seq<Seq<u8>>;

    /// True when every nested asset reference of this asset resolves
    /// in the given texture store.
    spec fn resolvable(&self, textures: TextureStore) -> bool;

    /// Realizes the asset on the device.  Succeeds exactly when every
    /// nested asset reference resolves; a missing reference is an
    /// error, never a silent default.
    fn load(&self, device: &mut Device, layout: u64, textures: &TextureStore) -> (r: Result<
        (Vec<Buffer>, BindGroup),
        ResolveError,
    >)
        requires
            old(device).next_id + self.buffer_sizes().len() + 1 <= u64::MAX,
        ensures
            r.is_ok() <==> self.resolvable(*textures),
            r matches Ok(p) ==> Device::bind_group_refs(p.1, p.0@),
            r matches Ok(p) ==> p.0@.map_values(|b: Buffer| b.data@.len() as int)
                == self.buffer_sizes(),
            r matches Ok(p) ==> p.0@.map_values(|b: Buffer| b.data@) == self.buffer_contents(),
            old(device).next_id <= final(device).next_id,
            final(device).next_id <= old(device).next_id + self.buffer_sizes().len() + 1;
}

/// Owner of one realized asset: a CPU copy of the asset value and the
/// immutable (buffer list, descriptor set) pair created from it once,
/// at bind time.  Updates rewrite existing buffer slots in place and
/// never resize a buffer or recreate the descriptor set.
pub struct Gpu<T: Asset> {
    pub asset: T,
    pub buffers: Vec<Buffer>,
    pub bind_group: BindGroup,
}

impl<T: Asset> Gpu<T> {
    /// The descriptor set references exactly the buffers created
    /// alongside it, and the buffer sizes are the asset's.
    pub open spec fn wf(&self) -> bool {
        &&& Device::bind_group_refs(self.bind_group, self.buffers@)
        &&& self.buffers@.map_values(|b: Buffer| b.data@.len() as int) == self.asset.buffer_sizes()
    }

    /// Realizes `asset` once and stores the result beside it.
    pub fn new(asset: T, device: &mut Device, layout: u64, textures: &TextureStore) -> (r: Result<
        Gpu<T>,
        ResolveError,
    >)
        requires
            old(device).next_id + asset.buffer_sizes().len() + 1 <= u64::MAX,
        ensures
            r.is_ok() <==> asset.resolvable(*textures),
            r matches Ok(g) ==> g.wf() && g.asset == asset,
            r matches Ok(g) ==> g.buffers@.map_values(|b: Buffer| b.data@)
                == asset.buffer_contents(),
            old(device).next_id <= final(device).next_id,
            final(device).next_id <= old(device).next_id + asset.buffer_sizes().len() + 1,
    {
        match asset.load(device, layout, textures) {
            Ok((buffers, bind_group)) => Ok(Gpu { asset, buffers, bind_group }),
            Err(e) => Err(e),
        }
    }

    /// Wraps an already realized (buffers, descriptor set) pair.
    pub fn create(asset: T, buffers: Vec<Buffer>, bind_group: BindGroup) -> (g: Gpu<T>)
        ensures
            g.asset == asset,
            g.buffers == buffers,
            g.bind_group == bind_group,
    {
        Gpu { asset, buffers, bind_group }
    }

    /// Overwrites the first `data.len()` bytes of buffer `index`.
    /// This is the sole mutation path: the buffer keeps its handle and
    /// size, every other buffer is untouched, and the descriptor set
    /// is exactly the one created at bind time.
    pub fn update_buffer(&mut self, index: usize, data: &[u8])
        requires
            index < old(self).buffers@.len(),
            data@.len() <= old(self).buffers@[index as int].data@.len(),
        ensures
            final(self).bind_group == old(self).bind_group,
            final(self).asset == old(self).asset,
            final(self).buffers@.len() == old(self).buffers@.len(),
            forall|i: int|
                0 <= i < old(self).buffers@.len() && i != index ==> final(self).buffers@[i]
                    == old(self).buffers@[i],
            final(self).buffers@[index as int].id == old(self).buffers@[index as int].id,
            final(self).buffers@[index as int].data@ == data@ + old(self).buffers@[
                index as int
            ].data@.skip(data@.len() as int),
            old(self).wf() ==> final(self).wf(),
    {
        let ghost old_self = *old(self);
        let old_len = self.buffers[index].data.len();
        let mut new_data: Vec<u8> = Vec::new();
        let mut i: usize = 0;
        while i < data.len()
            invariant
                i <= data@.len(),
                new_data@ == data@.subrange(0, i as int),
            decreases data@.len() - i,
        {
            new_data.push(data[i]);
            i = i + 1;
            proof {
                assert(new_data@ =~= data@.subrange(0, i as int));
            }
        }
        proof {
            assert(new_data@ =~= data@);
        }
        let mut j: usize = data.len();
        while j < old_len
            invariant
                data@.len() <= j <= old_len,
                old_len == self.buffers@[index as int].data@.len(),
                *self == old_self,
                index < self.buffers@.len(),
                new_data@ == data@ + self.buffers@[index as int].data@.subrange(
                    data@.len() as int,
                    j as int,
                ),
            decreases old_len - j,
        {
            let byte = self.buffers[index].data[j];
            new_data.push(byte);
            j = j + 1;
            proof {
                assert(new_data@ =~= data@ + self.buffers@[index as int].data@.subrange(
                    data@.len() as int,
                    j as int,
                ));
            }
        }
        let id = self.buffers[index].id;
        self.buffers.set(index, Buffer { id, data: new_data });
        proof {
            assert(self.buffers@[index as int].data@ =~= data@ + old_self.buffers@[
                index as int
            ].data@.skip(data@.len() as int));
            if old_self.wf() {
                assert(self.buffers@.map_values(|b: Buffer| b.id) =~= old_self.buffers@.map_values(
                    |b: Buffer| b.id,
                ));
                assert(self.buffers@.map_values(|b: Buffer| b.data@.len() as int)
                    =~= old_self.buffers@.map_values(|b: Buffer| b.data@.len() as int));
            }
        }
    }
}

} // verus!
