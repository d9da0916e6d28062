use reverie::device::Device;
use reverie::gpu::Gpu;
use reverie::material::{diffuse_color_bytes, Material, TextureId};
use reverie::registry::{ResolveError, TextureStore};

fn bits(color: [f32; 3]) -> [u32; 3] {
    [color[0].to_bits(), color[1].to_bits(), color[2].to_bits()]
}

#[test]
fn material_new_keeps_fields() {
    let diffuse = bits([1.0, 1.0, 1.0]);
    let m = Material::new(diffuse, None, None);
    assert_eq!(m.diffuse, diffuse);
    assert_eq!(m.diffuse_texture, TextureId::new(None));
    assert_eq!(m.normal_texture, TextureId::new(None));

    let m2 = Material::new(bits([0.25, 0.5, 0.75]), Some(3), Some(7));
    assert_eq!(m2.diffuse_texture.id, Some(3));
    assert_eq!(m2.normal_texture.id, Some(7));
}

#[test]
fn update_buffer_keeps_descriptor_set_and_rewrites_contents() {
    let mut device = Device::new();
    let textures = TextureStore::new();
    let m = Material::new(bits([0.1, 0.2, 0.3]), None, None);
    let mut binding = Gpu::new(m, &mut device, 0, &textures).unwrap();

    let bind_group_before = binding.bind_group.id;
    let buffer_before = binding.buffers[0].id;

    let bytes: Vec<u8> = (0u8..12u8).collect();
    binding.update_buffer(0, &bytes);

    assert_eq!(binding.bind_group.id, bind_group_before);
    assert_eq!(binding.buffers[0].id, buffer_before);
    assert_eq!(binding.buffers[0].data, bytes);
    assert_eq!(binding.buffers.len(), 1);
}

#[test]
fn update_diffuse_buffer_uploads_channel_bytes() {
    let mut device = Device::new();
    let textures = TextureStore::new();
    let m = Material::new(bits([0.0, 0.0, 0.0]), None, None);
    let mut binding = Gpu::new(m, &mut device, 0, &textures).unwrap();
    let bind_group_before = binding.bind_group.id;

    let new_color = bits([1.0, 0.5, 0.25]);
    binding.update_diffuse_buffer(new_color);

    assert_eq!(binding.bind_group.id, bind_group_before);
    assert_eq!(binding.buffers[0].data, diffuse_color_bytes(&new_color));

    let mut expected = Vec::new();
    for channel in new_color {
        expected.extend_from_slice(&channel.to_le_bytes());
    }
    assert_eq!(binding.buffers[0].data, expected);
}

#[test]
fn loading_resolves_texture_references_in_order() {
    let mut device = Device::new();
    let mut textures = TextureStore::new();
    let diffuse_view = device.create_texture_view();
    let normal_view = device.create_texture_view();
    let diffuse_id = textures.add(diffuse_view);
    let normal_id = textures.add(normal_view);

    let m = Material::new(bits([1.0, 1.0, 1.0]), Some(diffuse_id), Some(normal_id));
    let binding = Gpu::new(m, &mut device, 0, &textures).unwrap();

    assert_eq!(binding.bind_group.textures, vec![diffuse_view, normal_view]);
    assert_eq!(binding.bind_group.buffers, vec![binding.buffers[0].id]);
}

#[test]
fn missing_texture_reference_is_an_error_not_a_default() {
    let mut device = Device::new();
    let textures = TextureStore::new();
    let m = Material::new(bits([1.0, 1.0, 1.0]), Some(9), None);
    let result = Gpu::new(m, &mut device, 0, &textures);
    assert_eq!(result.err(), Some(ResolveError::MissingTexture { id: 9 }));
}

#[test]
fn create_wraps_an_existing_realization() {
    let mut device = Device::new();
    let buffer = device.create_buffer_init(vec![1, 2, 3, 4]);
    let ids = vec![buffer.id];
    let bind_group = device.create_bind_group(ids.clone(), Vec::new());
    let m = Material::new(bits([0.0, 1.0, 0.0]), None, None);
    let g = Gpu::create(m, vec![buffer], bind_group);
    assert_eq!(g.buffers[0].data, vec![1, 2, 3, 4]);
    assert_eq!(g.bind_group.buffers, ids);
}
