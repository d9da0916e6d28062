use reverie::device::Device;
use reverie::layout::{LayoutKind, LayoutRegistry};

#[test]
fn initialize_then_get_is_idempotent() {
    let mut device = Device::new();
    let mut layouts = LayoutRegistry::new();
    layouts.initialize(&mut device);

    let kinds = [
        LayoutKind::Transform,
        LayoutKind::Material,
        LayoutKind::Camera,
        LayoutKind::Light,
        LayoutKind::Shadow,
        LayoutKind::Skybox,
    ];
    for kind in kinds {
        let first = layouts.get(kind);
        let second = layouts.get(kind);
        let third = layouts.get(kind);
        assert_eq!(first, second);
        assert_eq!(second, third);
    }
}

#[test]
fn named_getters_agree_with_get() {
    let mut device = Device::new();
    let mut layouts = LayoutRegistry::new();
    layouts.initialize(&mut device);

    assert_eq!(layouts.get_transform_layout(), layouts.get(LayoutKind::Transform));
    assert_eq!(layouts.get_material_layout(), layouts.get(LayoutKind::Material));
    assert_eq!(layouts.get_camera_layout(), layouts.get(LayoutKind::Camera));
    assert_eq!(layouts.get_light_layout(), layouts.get(LayoutKind::Light));
    assert_eq!(layouts.get_shadow_layout(), layouts.get(LayoutKind::Shadow));
    assert_eq!(layouts.get_skybox_layout(), layouts.get(LayoutKind::Skybox));
}

#[test]
fn six_layouts_are_pairwise_distinct() {
    let mut device = Device::new();
    let mut layouts = LayoutRegistry::new();
    layouts.initialize(&mut device);

    let handles = vec![
        layouts.get(LayoutKind::Transform),
        layouts.get(LayoutKind::Material),
        layouts.get(LayoutKind::Camera),
        layouts.get(LayoutKind::Light),
        layouts.get(LayoutKind::Shadow),
        layouts.get(LayoutKind::Skybox),
    ];
    for i in 0..handles.len() {
        for j in 0..handles.len() {
            if i != j {
                assert_ne!(handles[i], handles[j]);
            }
        }
    }
}

#[test]
fn layouts_created_once_consume_six_handles() {
    let mut device = Device::new();
    let mut layouts = LayoutRegistry::new();
    let before = device.next_id;
    layouts.initialize(&mut device);
    assert_eq!(device.next_id, before + 6);
}
