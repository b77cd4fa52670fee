use boat::asset::{PreparedMaterial, PreparedTexture};
use boat::error::GeometryProbeError;
use boat::material::{
    decode_material_texture, material_matches, material_parameter_bytes,
    material_parameters_from_bytes, retained_material_texture_ids, texture_to_decode,
    DatabasePreparedMaterial, MaterialRole, ResidentMaterial, RetainedMaterialParameters,
};
use std::collections::BTreeMap;

fn distinct_parameters() -> RetainedMaterialParameters {
    RetainedMaterialParameters {
        base_color_factor: [0.1f32, 0.2, 0.3, 0.4].map(f32::to_bits),
        emissive_factor: [0.5f32, 0.6, 0.7].map(f32::to_bits),
        normal_scale: 0.8f32.to_bits(),
        metallic_factor: 0.9f32.to_bits(),
        roughness_factor: 0.25f32.to_bits(),
        occlusion_strength: 0.75f32.to_bits(),
        alpha_cutoff: 0.45f32.to_bits(),
        flags: 4,
        reserved: [0; 3],
    }
}

fn texture(name: &'static str, bytes: &'static [u8]) -> PreparedTexture {
    PreparedTexture { name, bytes }
}

fn prepared() -> PreparedMaterial {
    PreparedMaterial {
        base_color: texture("a", &[1, 2]),
        metallic_roughness: texture("b", &[3]),
        emissive: texture("c", &[4]),
        occlusion: PreparedTexture::none(),
        normal: texture("e", &[5, 6, 7]),
        parameters: distinct_parameters(),
    }
}

fn restored() -> DatabasePreparedMaterial {
    DatabasePreparedMaterial {
        base_color: vec![1, 2],
        metallic_roughness: vec![3],
        emissive: vec![4],
        occlusion: Vec::new(),
        normal: vec![5, 6, 7],
        parameters: distinct_parameters(),
    }
}

#[test]
fn distinct_material_parameters_survive_picasso_database_serialization() {
    let parameters = distinct_parameters();
    let mut store: BTreeMap<&str, Vec<u8>> = BTreeMap::new();
    let bytes = material_parameter_bytes(&parameters);
    store.insert("material/parameters.f32le", bytes);
    let restored = store.get("material/parameters.f32le").unwrap();
    assert_eq!(restored.len(), 64);
    assert_eq!(material_parameters_from_bytes(restored), Some(parameters));
    assert!(material_parameters_from_bytes(&restored[..63]).is_none());
}

#[test]
fn images_have_one_length() {
    assert!(material_parameters_from_bytes(&[0; 63]).is_none());
    assert!(material_parameters_from_bytes(&[0; 65]).is_none());
    assert!(material_parameters_from_bytes(&[]).is_none());
    assert!(material_parameters_from_bytes(&[0; 64]).is_some());
}

#[test]
fn numbers_come_first_and_integers_last() {
    let bytes = material_parameter_bytes(&distinct_parameters());
    assert_eq!(bytes[0..4], 0.1f32.to_le_bytes());
    assert_eq!(bytes[12..16], 0.4f32.to_le_bytes());
    assert_eq!(bytes[16..20], 0.5f32.to_le_bytes());
    assert_eq!(bytes[28..32], 0.8f32.to_le_bytes());
    assert_eq!(bytes[32..36], 0.9f32.to_le_bytes());
    assert_eq!(bytes[36..40], 0.25f32.to_le_bytes());
    assert_eq!(bytes[40..44], 0.75f32.to_le_bytes());
    assert_eq!(bytes[44..48], 0.45f32.to_le_bytes());
    assert_eq!(bytes[48..52], [4, 0, 0, 0]);
    assert_eq!(bytes[52..64], [0; 12]);
}

#[test]
fn every_image_is_the_image_of_what_it_spells() {
    let image: Vec<u8> = (0..64).map(|i| (i * 37 + 11) as u8).collect();
    let parameters = material_parameters_from_bytes(&image).unwrap();
    assert_eq!(material_parameter_bytes(&parameters), image);
}

#[test]
fn parameters_compare_as_numbers() {
    let positive = distinct_parameters();
    let mut zero = positive;
    let mut negative_zero = positive;
    zero.normal_scale = 0.0f32.to_bits();
    negative_zero.normal_scale = (-0.0f32).to_bits();
    assert_eq!(zero, negative_zero);
    assert_ne!(zero, positive);
    let mut undefined = positive;
    undefined.alpha_cutoff = f32::NAN.to_bits();
    assert_ne!(undefined, undefined);
    let mut flagged = positive;
    flagged.flags = 5;
    assert_ne!(flagged, positive);
}

#[test]
fn materials_match_by_bytes_and_parameters() {
    assert!(material_matches(&restored(), &prepared()));
    let mut other = restored();
    other.normal = vec![5, 6, 8];
    assert!(!material_matches(&other, &prepared()));
    let mut other = restored();
    other.occlusion = vec![0];
    assert!(!material_matches(&other, &prepared()));
    let mut other = restored();
    other.parameters.reserved[2] = 1;
    assert!(!material_matches(&other, &prepared()));
}

#[test]
fn roles_have_names_and_an_order() {
    let mut role = Some(MaterialRole::BaseColor);
    let mut names = Vec::new();
    while let Some(current) = role {
        names.push(current.name());
        role = current.next();
    }
    assert_eq!(
        names,
        ["base-color", "metallic-roughness", "emissive", "occlusion", "normal"]
    );
    assert_eq!(prepared().texture(MaterialRole::Normal).name, "e");
    assert_eq!(restored().map(MaterialRole::MetallicRoughness), &vec![3]);
}

#[test]
fn texture_handles_are_bound_only_for_sampled_materials() {
    let resident = ResidentMaterial {
        base_color: Some(11),
        metallic_roughness: None,
        emissive: Some(13),
        occlusion: None,
        normal: Some(15),
    };
    assert_eq!(retained_material_texture_ids(&resident, true), [11, 0, 13, 0, 15]);
    assert_eq!(retained_material_texture_ids(&resident, false), [0; 5]);
}

#[test]
fn textures_are_decoded_where_they_were_prepared() {
    let named = texture("ship.png", &[1, 2, 3]);
    let unnamed = texture("", &[1, 2, 3]);
    let none = PreparedTexture::none();
    assert_eq!(texture_to_decode(&named, &[9, 9, 9]), Ok(true));
    assert_eq!(texture_to_decode(&named, &[9, 9]), Err(GeometryProbeError::Contract));
    assert_eq!(texture_to_decode(&unnamed, &[9, 9, 9]), Err(GeometryProbeError::Contract));
    assert_eq!(texture_to_decode(&none, &[]), Ok(false));
    assert_eq!(texture_to_decode(&none, &[9]), Err(GeometryProbeError::Contract));

    assert_eq!(decode_material_texture(&named, &[9, 9, 9], Ok(77)), Ok(Some(77)));
    assert_eq!(
        decode_material_texture(&named, &[9, 9, 9], Err(-12)),
        Err(GeometryProbeError::Vgpu("material-texture-decode", -12))
    );
    assert_eq!(decode_material_texture(&none, &[], Err(-12)), Ok(None));
    assert_eq!(
        decode_material_texture(&none, &[9], Ok(77)),
        Err(GeometryProbeError::Contract)
    );
}
