use reverie::device::Device;
use reverie::material::Material;
use reverie::registry::Registry;

#[test]
fn unknown_id_is_answered_with_nothing_every_time() {
    let mut device = Device::new();
    let mut registry = Registry::new();
    assert!(registry.get_material(0, &mut device, 0).is_none());
    assert!(registry.get_material(0, &mut device, 0).is_none());
    assert!(registry.get_material(42, &mut device, 0).is_none());

    // The misses left no broken state behind: registration still works
    // and the registered id resolves while the others keep missing.
    let id = registry.add_material(Material::new([0, 0, 0], None, None));
    assert!(registry.get_material(id, &mut device, 0).is_some());
    assert!(registry.get_material(id + 1, &mut device, 0).is_none());
}

#[test]
fn first_request_realizes_then_caches() {
    let mut device = Device::new();
    let mut registry = Registry::new();
    let id = registry.add_material(Material::new([1, 2, 3], None, None));

    let first = registry.get_material(id, &mut device, 0).unwrap().bind_group.id;
    let handles_after_first = device.next_id;
    let second = registry.get_material(id, &mut device, 0).unwrap().bind_group.id;

    // Same shared binding, and the second request allocated nothing.
    assert_eq!(first, second);
    assert_eq!(device.next_id, handles_after_first);
}

#[test]
fn unresolvable_material_is_not_cached_in_a_broken_state() {
    let mut device = Device::new();
    let mut registry = Registry::new();
    let id = registry.add_material(Material::new([0, 0, 0], Some(0), None));

    // The texture it references does not exist yet: a miss, every time.
    assert!(registry.get_material(id, &mut device, 0).is_none());
    assert!(registry.get_material(id, &mut device, 0).is_none());

    // Once the dependency exists the same id realizes fine.
    let view = device.create_texture_view();
    registry.add_texture(view);
    let binding = registry.get_material(id, &mut device, 0).unwrap();
    assert_eq!(binding.bind_group.textures, vec![view]);
}

#[test]
fn editing_a_realized_material_rewrites_its_buffer_in_place() {
    let mut device = Device::new();
    let mut registry = Registry::new();
    let id = registry.add_material(Material::new([0, 0, 0], None, None));

    let (bind_group, buffer, handles) = {
        let binding = registry.get_material(id, &mut device, 0).unwrap();
        (binding.bind_group.id, binding.buffers[0].id, device.next_id)
    };

    let new_color = [
        1.0f32.to_bits(),
        0.5f32.to_bits(),
        0.25f32.to_bits(),
    ];
    registry.update_material_diffuse(id, new_color);

    // The CPU copy changed, the buffer holds the new bytes, and the
    // descriptor set and buffer identities are exactly the old ones:
    // nothing was reallocated.
    assert_eq!(registry.materials[id].diffuse, new_color);
    let binding = registry.get_material(id, &mut device, 0).unwrap();
    assert_eq!(binding.bind_group.id, bind_group);
    assert_eq!(binding.buffers[0].id, buffer);
    let mut expected = Vec::new();
    for channel in new_color {
        expected.extend_from_slice(&channel.to_le_bytes());
    }
    assert_eq!(binding.buffers[0].data, expected);
    assert_eq!(device.next_id, handles);
}

#[test]
fn editing_an_unrealized_material_changes_only_the_cpu_copy() {
    let mut device = Device::new();
    let mut registry = Registry::new();
    let id = registry.add_material(Material::new([0, 0, 0], None, None));
    let color = [7u32, 8, 9];
    registry.update_material_diffuse(id, color);
    assert_eq!(registry.materials[id].diffuse, color);

    // Realization afterwards uploads the edited color.
    let binding = registry.get_material(id, &mut device, 0).unwrap();
    let mut expected = Vec::new();
    for channel in color {
        expected.extend_from_slice(&channel.to_le_bytes());
    }
    assert_eq!(binding.buffers[0].data, expected);
}
