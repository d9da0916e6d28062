//! Device meshes: immutable lists of sub-meshes created at load time
//! and shared by reference across every entity using the same source
//! mesh.

use vstd::prelude::*;

verus! {

/// One sub-mesh of a device mesh: its vertex and index buffers, how
/// many indices a draw of it covers, and the material slot it was
/// authored with.  Never mutated after creation.
pub struct Mesh {
    pub name: String,
    pub vertex_buffer: u64,
    pub index_buffer: u64,
    pub element_count: u32,
    pub material: usize,
}

} // verus!
