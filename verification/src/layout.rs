//! The process-wide table of named resource-layout descriptors.
//!
//! All descriptor sets and pipelines must agree on how a resource
//! binds to a pipeline stage, so the six named layouts are created
//! exactly once, before any binding or pipeline, and are read-only for
//! the rest of the run.

use vstd::prelude::*;
use crate::device::Device;

verus! {

/// The names of the layouts the registry holds.
#[derive(Clone, Copy, Debug, PartialEq, Eq, Structural)]
pub enum LayoutKind {
    Transform,
    Material,
    Camera,
    Light,
    Shadow,
    Skybox,
}

/// The named layout handles: empty until `initialize`, then write-once
/// and read-only.  Reading before initialization is a construction
/// order bug, excluded by contract rather than handled at run time.
pub struct LayoutRegistry {
    pub transform: Option<u64>,
    pub material: Option<u64>,
    pub camera: Option<u64>,
    pub light: Option<u64>,
    pub shadow: Option<u64>,
    pub skybox: Option<u64>,
}

impl LayoutRegistry {
    /// True once every named layout was created.
    pub open spec fn initialized(&self) -> bool {
        &&& self.transform is Some
        &&& self.material is Some
        &&& self.camera is Some
        &&& self.light is Some
        &&& self.shadow is Some
        &&& self.skybox is Some
    }

    /// The handle the registry holds for `kind`.  `get` returns
    /// exactly this value, so any number of reads of the same name
    /// yield the same layout identity.
    pub open spec fn layout_spec(&self, kind: LayoutKind) -> u64 {
        match kind {
            LayoutKind::Transform => self.transform->Some_0,
            LayoutKind::Material => self.material->Some_0,
            LayoutKind::Camera => self.camera->Some_0,
            LayoutKind::Light => self.light->Some_0,
            LayoutKind::Shadow => self.shadow->Some_0,
            LayoutKind::Skybox => self.skybox->Some_0,
        }
    }

    pub fn new() -> (r: LayoutRegistry)
        ensures
            !r.initialized(),
            r.transform is None && r.material is None && r.camera is None && r.light is None
                && r.shadow is None && r.skybox is None,
    {
        LayoutRegistry {
            transform: None,
            material: None,
            camera: None,
            light: None,
            shadow: None,
            skybox: None,
        }
    }

    /// Creates all six layouts on the device, exactly once: a second
    /// initialization is excluded by contract, and no other method
    /// writes the table.  The six handles are pairwise distinct.
    pub fn initialize(&mut self, device: &mut Device)
        requires
            !old(self).initialized(),
            old(device).next_id + 6 <= u64::MAX,
        ensures
            final(self).initialized(),
            final(device).next_id == old(device).next_id + 6,
            final(self).layout_spec(LayoutKind::Transform) == old(device).next_id,
            final(self).layout_spec(LayoutKind::Material) == old(device).next_id + 1,
            final(self).layout_spec(LayoutKind::Camera) == old(device).next_id + 2,
            final(self).layout_spec(LayoutKind::Light) == old(device).next_id + 3,
            final(self).layout_spec(LayoutKind::Shadow) == old(device).next_id + 4,
            final(self).layout_spec(LayoutKind::Skybox) == old(device).next_id + 5,
            forall|k1: LayoutKind, k2: LayoutKind|
                k1 != k2 ==> final(self).layout_spec(k1) != final(self).layout_spec(k2),
    {
        self.transform = Some(device.create_layout());
        self.material = Some(device.create_layout());
        self.camera = Some(device.create_layout());
        self.light = Some(device.create_layout());
        self.shadow = Some(device.create_layout());
        self.skybox = Some(device.create_layout());
    }

    /// The layout for `kind`.  Requires initialization: asking earlier
    /// is a programming-contract violation, not a recoverable error.
    pub fn get(&self, kind: LayoutKind) -> (h: u64)
        requires
            self.initialized(),
        ensures
            h == self.layout_spec(kind),
    {
        match kind {
            LayoutKind::Transform => self.get_transform_layout(),
            LayoutKind::Material => self.get_material_layout(),
            LayoutKind::Camera => self.get_camera_layout(),
            LayoutKind::Light => self.get_light_layout(),
            LayoutKind::Shadow => self.get_shadow_layout(),
            LayoutKind::Skybox => self.get_skybox_layout(),
        }
    }

    pub fn get_transform_layout(&self) -> (h: u64)
        requires
            self.initialized(),
        ensures
            h == self.layout_spec(LayoutKind::Transform),
    {
        match self.transform {
            Some(h) => h,
            None => 0,
        }
    }

    pub fn get_material_layout(&self) -> (h: u64)
        requires
            self.initialized(),
        ensures
            h == self.layout_spec(LayoutKind::Material),
    {
        match self.material {
            Some(h) => h,
            None => 0,
        }
    }

    pub fn get_camera_layout(&self) -> (h: u64)
        requires
            self.initialized(),
        ensures
            h == self.layout_spec(LayoutKind::Camera),
    {
        match self.camera {
            Some(h) => h,
            None => 0,
        }
    }

    pub fn get_light_layout(&self) -> (h: u64)
        requires
            self.initialized(),
        ensures
            h == self.layout_spec(LayoutKind::Light),
    {
        match self.light {
            Some(h) => h,
            None => 0,
        }
    }

    pub fn get_shadow_layout(&self) -> (h: u64)
        requires
            self.initialized(),
        ensures
            h == self.layout_spec(LayoutKind::Shadow),
    {
        match self.shadow {
            Some(h) => h,
            None => 0,
        }
    }

    pub fn get_skybox_layout(&self) -> (h: u64)
        requires
            self.initialized(),
        ensures
            h == self.layout_spec(LayoutKind::Skybox),
    {
        match self.skybox {
            Some(h) => h,
            None => 0,
        }
    }
}

} // verus!
