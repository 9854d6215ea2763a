use gltf_loader::label::{
    animation_label, append_decimal, material_label, mesh_label, node_label, node_name, numbered,
    primitive_label, scene_label, skin_label, texture_label,
};

#[test]
fn labels_are_made_of_the_kind_and_the_index() {
    assert_eq!(mesh_label(0), "Mesh0");
    assert_eq!(mesh_label(17), "Mesh17");
    assert_eq!(primitive_label(3, 0), "Mesh3/Primitive0");
    assert_eq!(primitive_label(120, 45), "Mesh120/Primitive45");
    assert_eq!(material_label(Some(2)), "Material2");
    assert_eq!(material_label(None), "MaterialDefault");
    assert_eq!(texture_label(9), "Texture9");
    assert_eq!(node_label(10), "Node10");
    assert_eq!(scene_label(100), "Scene100");
    assert_eq!(skin_label(1), "Skin1");
    assert_eq!(animation_label(1001), "Animation1001");
}

#[test]
fn numbers_are_written_as_the_standard_library_writes_them() {
    let samples = [0usize, 1, 9, 10, 11, 99, 100, 101, 1000, 65535, 4294967295, usize::MAX];
    for n in samples {
        assert_eq!(numbered("", n), format!("{}", n));
        let mut text = "x=".to_string();
        append_decimal(&mut text, n);
        assert_eq!(text, format!("x={}", n));
    }
    for n in 0..2000 {
        assert_eq!(numbered("N", n), format!("N{}", n));
    }
}

#[test]
fn node_without_a_name_is_named_after_its_index() {
    assert_eq!(node_name(&Some("Head".to_string()), 4), "Head");
    assert_eq!(node_name(&Some(String::new()), 4), "");
    assert_eq!(node_name(&None, 4), "GltfNode4");
    assert_eq!(node_name(&None, 0), "GltfNode0");
}
