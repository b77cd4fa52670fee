use boat::material::MaterialRole;
use boat::model::{
    material_defect, source_parameters, texture_name, MaterialDefect, SourceMaterial,
    SourceTexture,
};
use boat::source::{
    embedded_buffer, found_image, load_buffer, load_supported_image, supported_image_extension,
    BufferLoad, BufferSource, ImageLoad, ImageSource,
};

fn loaded_buffer(load: BufferLoad) -> Vec<u8> {
    match load {
        BufferLoad::Loaded(bytes) => bytes,
        _ => panic!("the buffer is not loaded"),
    }
}

fn loaded_image(load: ImageLoad) -> (&'static str, Vec<u8>) {
    match load {
        ImageLoad::Loaded { extension, bytes } => (extension, bytes),
        _ => panic!("the image is not loaded"),
    }
}

fn texture() -> SourceTexture<'static> {
    SourceTexture {
        coordinates: 0,
        repeats_s: true,
        repeats_t: true,
        image: ImageSource::Uri { uri: "map.png", declared: None },
    }
}

fn material() -> SourceMaterial<'static> {
    SourceMaterial {
        opaque: true,
        base_color: Some(texture()),
        metallic_roughness: None,
        emissive: Some(texture()),
        occlusion: None,
        normal: Some(texture()),
        base_color_factor: [0.1f32, 0.2, 0.3, 0.4].map(f32::to_bits),
        emissive_factor: [0.5f32, 0.6, 0.7].map(f32::to_bits),
        normal_scale: Some(0.8f32.to_bits()),
        metallic_factor: 0.9f32.to_bits(),
        roughness_factor: 0.25f32.to_bits(),
        occlusion_strength: None,
        alpha_cutoff: None,
        double_sided: true,
    }
}

#[test]
fn encodings_are_known_in_any_case() {
    for (value, extension) in [
        ("image/jpeg", "jpg"),
        ("jpeg", "jpg"),
        ("jpg", "jpg"),
        ("JPG", "jpg"),
        ("image/PNG", "png"),
        ("Png", "png"),
        ("image/bmp", "bmp"),
        ("BMP", "bmp"),
    ] {
        assert_eq!(supported_image_extension(value), Some(extension));
    }
    for value in ["", "pn", "pngs", "image/webp", "webp", "jpég", "\u{212a}pg"] {
        assert_eq!(supported_image_extension(value), None);
    }
}

#[test]
fn buffers_come_from_the_blob() {
    let blob = Some(vec![1, 2, 3]);
    assert_eq!(loaded_buffer(load_buffer(&BufferSource::Bin, &blob)), [1, 2, 3]);
    assert!(matches!(load_buffer(&BufferSource::Bin, &None), BufferLoad::BlobMissing));
}

#[test]
fn buffers_come_from_data_uris() {
    let uri = "data:application/octet-stream;base64,aGVsbG8gd29ybGR+Cg==";
    assert_eq!(loaded_buffer(load_buffer(&BufferSource::Uri(uri), &None)), b"hello world~\n");
    assert!(loaded_buffer(load_buffer(&BufferSource::Uri("data:,"), &None)).is_empty());
    for uri in ["data:", "data:application/octet-stream;base64", "data:,a", "data:,aGVsbG8"] {
        assert!(matches!(
            load_buffer(&BufferSource::Uri(uri), &None),
            BufferLoad::DataMalformed
        ));
    }
    assert_eq!(loaded_buffer(embedded_buffer(Some(vec![4]))), [4]);
    assert!(matches!(embedded_buffer(None), BufferLoad::DataMalformed));
}

#[test]
fn other_buffers_are_files() {
    for uri in ["mesh.bin", "data", "DATA:,aGVsbG8=", "a,b"] {
        assert!(matches!(load_buffer(&BufferSource::Uri(uri), &None), BufferLoad::File));
    }
}

#[test]
fn images_are_ranges_of_buffers() {
    let buffers = [vec![1, 2, 3], vec![4, 5, 6, 7]];
    let view = |buffer, offset, length, mime_type| {
        load_supported_image(
            &ImageSource::View { buffer, offset, length, mime_type },
            &buffers,
        )
    };
    assert_eq!(loaded_image(view(1, 1, 2, "image/png")), ("png", vec![5, 6]));
    assert_eq!(loaded_image(view(0, 3, 0, "image/jpeg")), ("jpg", vec![]));
    assert!(matches!(view(1, 1, 4, "image/png"), ImageLoad::Unsupported));
    assert!(matches!(view(2, 0, 0, "image/png"), ImageLoad::Unsupported));
    assert!(matches!(view(0, usize::MAX, 1, "image/png"), ImageLoad::Unsupported));
    assert!(matches!(view(0, 0, 1, "image/webp"), ImageLoad::Unsupported));
}

#[test]
fn images_come_from_uris() {
    let uri = |uri, declared| load_supported_image(&ImageSource::Uri { uri, declared }, &[]);
    assert_eq!(
        loaded_image(uri("data:image/png;base64,aGk=", Some("image/png"))),
        ("png", b"hi".to_vec())
    );
    // The extension of the URI stands in for a media type that is not known.
    match uri("maps/deck.v2.JPG", Some("image/unknown")) {
        ImageLoad::File { extension } => assert_eq!(extension, "jpg"),
        _ => panic!("the image is not in a file"),
    }
    match uri("deck.png", Some("image/jpeg")) {
        ImageLoad::File { extension } => assert_eq!(extension, "jpg"),
        _ => panic!("the image is not in a file"),
    }
    assert_eq!(loaded_image(uri("data:,aGk=", Some("png"))), ("png", b"hi".to_vec()));
    assert!(matches!(uri("data:image/png;base64,aGk=", None), ImageLoad::Unsupported));
    assert!(matches!(uri("data:image/png;base64,a", Some("png")), ImageLoad::Unsupported));
    assert!(matches!(uri("data:image/png;base64", Some("png")), ImageLoad::Unsupported));
    assert!(matches!(uri("deck.webp", None), ImageLoad::Unsupported));
    assert!(matches!(uri("deck", None), ImageLoad::Unsupported));
    assert_eq!(loaded_image(found_image("bmp", Some(vec![9]))), ("bmp", vec![9]));
    assert!(matches!(found_image("bmp", None), ImageLoad::Unsupported));
}

#[test]
fn retained_materials_share_one_sampler() {
    assert_eq!(material_defect(&material()), None);
    let mut translucent = material();
    translucent.opaque = false;
    translucent.base_color = Some(SourceTexture { coordinates: 1, ..texture() });
    assert_eq!(material_defect(&translucent), Some(MaterialDefect::NotOpaque));
    let mut other = material();
    other.normal = Some(SourceTexture { coordinates: 1, repeats_s: false, ..texture() });
    assert_eq!(
        material_defect(&other),
        Some(MaterialDefect::Coordinates(MaterialRole::Normal))
    );
    other.metallic_roughness = Some(SourceTexture { repeats_t: false, ..texture() });
    assert_eq!(
        material_defect(&other),
        Some(MaterialDefect::WrapT(MaterialRole::MetallicRoughness))
    );
    other.base_color = Some(SourceTexture { repeats_s: false, repeats_t: false, ..texture() });
    assert_eq!(
        material_defect(&other),
        Some(MaterialDefect::WrapS(MaterialRole::BaseColor))
    );
}

#[test]
fn parameters_come_from_the_material_or_its_defaults() {
    let number = f32::from_bits;
    let plain = source_parameters(None, 4);
    assert_eq!(plain.base_color_factor.map(number), [1.0; 4]);
    assert_eq!(plain.emissive_factor.map(number), [0.0; 3]);
    assert_eq!(number(plain.normal_scale), 1.0);
    assert_eq!(number(plain.metallic_factor), 1.0);
    assert_eq!(number(plain.roughness_factor), 1.0);
    assert_eq!(number(plain.occlusion_strength), 1.0);
    assert_eq!(number(plain.alpha_cutoff), 0.5);
    assert_eq!((plain.flags, plain.reserved), (0, [0; 3]));

    let source = material();
    let authored = source_parameters(Some(&source), 4);
    assert_eq!(authored.base_color_factor, source.base_color_factor);
    assert_eq!(authored.emissive_factor, source.emissive_factor);
    assert_eq!(number(authored.normal_scale), 0.8);
    assert_eq!(number(authored.metallic_factor), 0.9);
    assert_eq!(number(authored.roughness_factor), 0.25);
    assert_eq!(number(authored.occlusion_strength), 1.0);
    assert_eq!(number(authored.alpha_cutoff), 0.5);
    assert_eq!(authored.flags, 4);

    let single = SourceMaterial {
        double_sided: false,
        normal_scale: None,
        occlusion_strength: Some(0.75f32.to_bits()),
        alpha_cutoff: Some(0.45f32.to_bits()),
        ..source
    };
    let authored = source_parameters(Some(&single), 4);
    assert_eq!(authored.flags, 0);
    assert_eq!(number(authored.normal_scale), 1.0);
    assert_eq!(number(authored.occlusion_strength), 0.75);
    assert_eq!(number(authored.alpha_cutoff), 0.45);
}

#[test]
fn textures_are_named_after_asset_role_and_encoding() {
    assert_eq!(
        texture_name("Ship", MaterialRole::MetallicRoughness, "jpg"),
        "Ship.metallic-roughness.jpg"
    );
}
