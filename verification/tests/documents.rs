use boat::asset::PrimitiveTopology;
use boat::attribute::{
    assemble_primitive, read_primitives, Attribute, AttributesRead, PrimitivesDefect, ReadDefect,
    ReadPrimitive,
};
use boat::document::{
    buffer_file, check_positions, document_buffer, first_material, load_buffers, read_document,
    retained_material, BufferDefect, BufferFault, Declared, Document, MissingImage,
    PrimitiveRecord, RetentionDefect, TextureRecord, ViewRecord,
};
use boat::material::MaterialRole;
use boat::mesh::{bake_model, SourceTangents};
use boat::model::{load_texture, load_textures, material_defect, ImageFiles, MaterialDefect};
use boat::source::{image_file, load_image_with_file, BufferLoad, ImageLoad, ImageSource};

const POSITIONS: [[f32; 3]; 3] = [[0.0, 0.5, 1.0], [1.0, 0.0, -2.0], [3.5, -1.0, 0.25]];
const NORMALS: [[f32; 3]; 3] = [[0.0, 0.0, 1.0], [0.0, 1.0, 0.0], [1.0, 0.0, 0.0]];
const UVS: [[f32; 2]; 3] = [[0.0, 1.0], [0.5, 0.25], [1.0, 0.0]];
const TANGENTS: [[f32; 4]; 3] = [
    [1.0, 0.0, 0.0, 1.0],
    [0.0, 0.0, 1.0, -1.0],
    [0.0, 1.0, 0.0, 1.0],
];

/// Positions, normals, coordinates, tangents, indices, an image, and
/// coordinates as bytes.
fn payload() -> Vec<u8> {
    let mut bytes = Vec::new();
    for value in POSITIONS.iter().chain(&NORMALS).flatten() {
        bytes.extend(value.to_le_bytes());
    }
    for value in UVS.iter().flatten() {
        bytes.extend(value.to_le_bytes());
    }
    for value in TANGENTS.iter().flatten() {
        bytes.extend(value.to_le_bytes());
    }
    for index in [2u16, 0, 1] {
        bytes.extend(index.to_le_bytes());
    }
    bytes.extend([0, 0, 9, 8, 7, 0, 0, 255, 51, 0, 255, 102]);
    bytes
}

const TEMPLATE: &str = r#"{
  "asset": {"version": "2.0"},
  "buffers": [BUFFER],
  "bufferViews": [
    {"buffer": 0, "byteOffset": 0, "byteLength": 36},
    {"buffer": 0, "byteOffset": 36, "byteLength": 36},
    {"buffer": 0, "byteOffset": 72, "byteLength": 24},
    {"buffer": 0, "byteOffset": 96, "byteLength": 48},
    {"buffer": 0, "byteOffset": 144, "byteLength": 6},
    {"buffer": 0, "byteOffset": 152, "byteLength": 3},
    {"buffer": 0, "byteOffset": 156, "byteLength": 6}
  ],
  "accessors": [
    {"bufferView": 0, "componentType": 5126, "count": 3, "type": "VEC3",
     "min": [0, 0, 0], "max": [1, 1, 1]},
    {"bufferView": 1, "componentType": 5126, "count": 3, "type": "VEC3"},
    {"bufferView": 2, "componentType": 5126, "count": 3, "type": "VEC2"},
    {"bufferView": 3, "componentType": 5126, "count": 3, "type": "VEC4"},
    {"bufferView": 4, "componentType": 5123, "count": 3, "type": "SCALAR"},
    {"bufferView": 6, "componentType": 5121, "count": 3, "type": "VEC2", "normalized": true},
    {"componentType": 5126, "count": 4, "type": "VEC3", "min": [0, 0, 0], "max": [1, 1, 1],
     "sparse": {"count": 2, "indices": {"bufferView": 4, "byteOffset": 2, "componentType": 5123},
                "values": {"bufferView": 1}}}
  ],
  "images": [{"bufferView": 5, "mimeType": "image/png"}, {"uri": "maps/n.jpg"}],
  "samplers": [{"wrapS": 33071}],
  "textures": [{"source": 0}, {"source": 1, "sampler": 0}],
  "materials": [
    {"pbrMetallicRoughness": {"baseColorTexture": {"index": 0},
                              "baseColorFactor": [0.5, 0.25, 1.0, 0.75],
                              "metallicFactor": 0.5, "roughnessFactor": 0.125},
     "normalTexture": {"index": 1, "texCoord": 1, "scale": 2.0},
     "occlusionTexture": {"index": 0, "strength": 0.5},
     "emissiveFactor": [0.0, 0.5, 1.0],
     "doubleSided": true},
    {"alphaMode": "MASK", "alphaCutoff": 0.75}
  ],
  "meshes": [
    {"primitives": [
      {"attributes": {"POSITION": 0, "NORMAL": 1, "TEXCOORD_0": 2, "TANGENT": 3},
       "indices": 4, "material": 0},
      {"attributes": {"POSITION": 0, "TEXCOORD_0": 5}, "mode": 5, "material": 1}]},
    {"primitives": [{"attributes": {"POSITION": 6}, "mode": 0}]}
  ]
}"#;

fn encoded() -> String {
    base64::Engine::encode(&base64::engine::general_purpose::STANDARD, payload())
}

/// The document, with its buffer in a data URI.
fn text() -> String {
    let uri = format!("data:application/octet-stream;base64,{}", encoded());
    let buffer = format!("{{\"byteLength\": {}, \"uri\": \"{uri}\"}}", payload().len());
    TEMPLATE.replace("BUFFER", &buffer)
}

/// The document as a binary container, with its buffer in the binary part.
fn container() -> Vec<u8> {
    let mut json = TEMPLATE
        .replace("BUFFER", &format!("{{\"byteLength\": {}}}", payload().len()))
        .into_bytes();
    while json.len() % 4 != 0 {
        json.push(b' ');
    }
    let mut bin = payload();
    while bin.len() % 4 != 0 {
        bin.push(0);
    }
    let mut bytes = b"glTF".to_vec();
    bytes.extend(2u32.to_le_bytes());
    bytes.extend((12 + 8 + json.len() as u32 + 8 + bin.len() as u32).to_le_bytes());
    bytes.extend((json.len() as u32).to_le_bytes());
    bytes.extend(b"JSON");
    bytes.extend(json);
    bytes.extend((bin.len() as u32).to_le_bytes());
    bytes.extend(b"BIN\0");
    bytes.extend(bin);
    bytes
}

fn document(text: &str) -> Document {
    read_document(text.as_bytes()).expect("a document")
}

fn bits<const N: usize>(values: &[[f32; N]]) -> Vec<[u32; N]> {
    values.iter().map(|value| value.map(f32::to_bits)).collect()
}

fn primitives(text: &str, sampled: bool) -> Result<Vec<ReadPrimitive>, PrimitivesDefect> {
    read_primitives(text.as_bytes(), &[payload()], sampled)
}

fn defect(text: &str) -> PrimitivesDefect {
    primitives(text, true).err().expect("a defect")
}

#[test]
fn a_document_lists_what_it_stores() {
    let document = document(&text());
    assert_eq!(document.storage.blob, None);
    assert_eq!(document.storage.buffers.len(), 1);
    assert_eq!(
        document.storage.buffers[0],
        Some(format!("data:application/octet-stream;base64,{}", encoded()))
    );
    assert_eq!(document.storage.views.len(), 7);
    assert_eq!(
        document.storage.views[4],
        ViewRecord { buffer: 0, offset: 144, length: 6, stride: None }
    );
    assert_eq!(document.storage.images.len(), 2);
    assert_eq!(document.storage.images[0].view, Some(5));
    assert_eq!(document.storage.images[0].mime_type.as_deref(), Some("image/png"));
    assert_eq!(document.storage.images[0].uri, None);
    assert_eq!(document.storage.images[1].view, None);
    assert_eq!(document.storage.images[1].mime_type, None);
    assert_eq!(document.storage.images[1].uri.as_deref(), Some("maps/n.jpg"));
}

#[test]
fn a_document_lists_its_textures_and_materials() {
    let document = document(&text());
    assert_eq!(
        document.textures,
        [
            TextureRecord { image: 0, wrap_s: 10497, wrap_t: 10497 },
            TextureRecord { image: 1, wrap_s: 33071, wrap_t: 10497 },
        ]
    );
    assert_eq!(document.material_textures.len(), 2);
    let textures = document.material_textures[0];
    assert_eq!(textures.base_color, Some((0, 0)));
    assert_eq!(textures.metallic_roughness, None);
    assert_eq!(textures.emissive, None);
    assert_eq!(textures.occlusion, Some((0, 0)));
    assert_eq!(textures.normal, Some((1, 1)));
    assert_eq!(document.material_numbers.len(), 2);
    let numbers = document.material_numbers[1];
    assert_eq!(numbers.alpha_mode, 2);
    assert_eq!(numbers.alpha_cutoff, Some(0.75f32.to_bits()));
    assert_eq!(numbers.base_color_factor, [1.0f32.to_bits(); 4]);
    assert_eq!(numbers.normal_scale, None);
    assert_eq!(numbers.occlusion_strength, None);
    assert!(!numbers.double_sided);
}

#[test]
fn a_document_lists_its_accessors_and_primitives() {
    let document = document(&text());
    assert_eq!(document.accessors.len(), 7);
    let uvs = document.accessors[5];
    assert_eq!((uvs.component, uvs.size, uvs.count, uvs.offset), (5121, 2, 3, 0));
    assert_eq!(uvs.view, Some(6));
    assert!(uvs.sparse.is_none());
    let sparse = document.accessors[6];
    assert_eq!((sparse.component, sparse.size, sparse.count), (5126, 12, 4));
    assert_eq!(sparse.view, None);
    let few = sparse.sparse.expect("a sparse accessor");
    assert_eq!((few.count, few.index_component), (2, 5123));
    assert_eq!((few.indices_view, few.indices_offset), (4, 2));
    assert_eq!((few.values_view, few.values_offset), (1, 0));
    assert_eq!(document.meshes.len(), 2);
    assert_eq!(document.meshes[0].len(), 2);
    let first = document.meshes[0][0];
    assert_eq!(first.mode, 4);
    assert_eq!(
        (first.positions, first.normals, first.uvs, first.tangents, first.indices),
        (Some(0), Some(1), Some(2), Some(3), Some(4))
    );
    assert!(first.double_sided);
    let second = document.meshes[0][1];
    assert_eq!(second.mode, 5);
    assert_eq!((second.normals, second.uvs, second.indices), (None, Some(5), None));
    assert!(!second.double_sided);
    assert_eq!(document.meshes[1].len(), 1);
}

#[test]
fn what_is_no_document_is_refused() {
    assert!(read_document(b"").is_none());
    assert!(read_document(b"{}").is_none());
    assert!(read_document(b"a model").is_none());
    // A container that ends within its header, or counts less than it.
    assert!(read_document(b"glTF").is_none());
    let mut short = container();
    short[8..12].copy_from_slice(&11u32.to_le_bytes());
    assert!(read_document(&short).is_none());
    let mut long = container();
    let length = long.len() as u32 + 1;
    long[8..12].copy_from_slice(&length.to_le_bytes());
    assert!(read_document(&long).is_none());
    assert!(read_document(&container()).is_some());
    // A reference to what is not there.
    let astray = text().replace("\"POSITION\": 6", "\"POSITION\": 7");
    assert!(read_document(astray.as_bytes()).is_none());
    let astray = text().replace("\"NORMAL\": 1", "\"NORMAL\": 7");
    assert!(read_document(astray.as_bytes()).is_none());
    assert!(matches!(
        read_primitives(b"a model", &[], false).err(),
        Some(PrimitivesDefect::Document)
    ));
}

#[test]
fn positions_must_name_accessors_that_are_there() {
    let declared = |positions| Declared { accessors: 2, positions };
    assert!(check_positions(&declared(vec![])));
    assert!(check_positions(&declared(vec![vec![Some(0), None], vec![Some(1)]])));
    assert!(!check_positions(&declared(vec![vec![Some(0)], vec![None, Some(2)]])));
}

#[test]
fn buffers_come_from_the_document_or_from_files() {
    let embedded = document(&text());
    assert_eq!(buffer_file(&embedded, 0), None);
    assert_eq!(load_buffers(&embedded, &[None]), Ok(vec![payload()]));

    let contained = read_document(&container()).expect("a document");
    assert_eq!(buffer_file(&contained, 0), None);
    let loaded = load_buffers(&contained, &[None]).expect("a buffer");
    assert_eq!(loaded[0][..payload().len()], payload()[..]);

    let beside = document(&TEMPLATE.replace(
        "BUFFER",
        "{\"byteLength\": 162, \"uri\": \"model.bin\"}",
    ));
    assert_eq!(buffer_file(&beside, 0), Some("model.bin"));
    assert!(matches!(document_buffer(&beside, 0), BufferLoad::File));
    assert_eq!(load_buffers(&beside, &[Some(vec![1, 2])]), Ok(vec![vec![1, 2]]));
    let fault = |fault| Err(BufferDefect { buffer: 0, fault });
    assert_eq!(load_buffers(&beside, &[None]), fault(BufferFault::FileMissing));

    let bare = document(&TEMPLATE.replace("BUFFER", "{\"byteLength\": 162}"));
    assert_eq!(load_buffers(&bare, &[None]), fault(BufferFault::BlobMissing));
    let broken = document(&TEMPLATE.replace(
        "BUFFER",
        "{\"byteLength\": 162, \"uri\": \"data:,*\"}",
    ));
    assert_eq!(load_buffers(&broken, &[None]), fault(BufferFault::DataMalformed));
}

#[test]
fn the_first_material_is_the_models() {
    let document = document(&text());
    let material = first_material(&document).expect("images").expect("a material");
    assert!(material.opaque);
    assert!(material.double_sided);
    assert_eq!(material.base_color_factor, [0.5f32, 0.25, 1.0, 0.75].map(f32::to_bits));
    assert_eq!(material.emissive_factor, [0.0f32, 0.5, 1.0].map(f32::to_bits));
    assert_eq!(material.metallic_factor, 0.5f32.to_bits());
    assert_eq!(material.roughness_factor, 0.125f32.to_bits());
    assert_eq!(material.normal_scale, Some(2.0f32.to_bits()));
    assert_eq!(material.occlusion_strength, Some(0.5f32.to_bits()));
    assert_eq!(material.alpha_cutoff, None);
    let base_color = material.base_color.expect("a base color");
    assert!(base_color.repeats_s && base_color.repeats_t);
    assert!(matches!(
        base_color.image,
        ImageSource::View { buffer: 0, offset: 152, length: 3, mime_type: "image/png" }
    ));
    let normal = material.normal.expect("a normal map");
    assert_eq!(normal.coordinates, 1);
    assert!(!normal.repeats_s && normal.repeats_t);
    assert!(matches!(
        normal.image,
        ImageSource::Uri { uri: "maps/n.jpg", declared: None }
    ));
    assert!(material.metallic_roughness.is_none() && material.emissive.is_none());
    assert_eq!(
        material_defect(&material),
        Some(MaterialDefect::Coordinates(MaterialRole::Normal))
    );
}

#[test]
fn a_document_may_have_no_material() {
    let document = document("{\"asset\": {\"version\": \"2.0\"}}");
    assert!(matches!(first_material(&document), Ok(None)));
    assert_eq!(primitives("{\"asset\": {\"version\": \"2.0\"}}", true).expect("none").len(), 0);
}

#[test]
fn images_need_a_media_type_or_a_uri() {
    let missing = |text: &str| match first_material(&document(text)) {
        Err(MissingImage { role }) => role,
        Ok(_) => panic!("the image is there"),
    };
    let unnamed = text().replace(", \"mimeType\": \"image/png\"", "");
    assert_eq!(missing(&unnamed), MaterialRole::BaseColor);
    let nowhere = text().replace("{\"uri\": \"maps/n.jpg\"}", "{\"mimeType\": \"image/png\"}");
    assert_eq!(missing(&nowhere), MaterialRole::Normal);
}

#[test]
fn textures_are_loaded_under_their_names() {
    let document = document(&text());
    let material = first_material(&document).expect("images").expect("a material");
    let base_color = material.base_color;
    assert_eq!(image_file(&base_color.expect("a base color").image), None);
    let load = |role, texture, buffers: &[Vec<u8>], file| {
        load_texture("ship", role, texture, buffers, file)
            .map(|loaded| loaded.map(|loaded| (loaded.name, loaded.bytes)))
    };
    assert_eq!(
        load(MaterialRole::BaseColor, &base_color, &[payload()], None),
        Ok(Some(("ship.base-color.png".to_string(), vec![9, 8, 7])))
    );
    assert_eq!(
        load(MaterialRole::BaseColor, &base_color, &[], None),
        Err(MaterialRole::BaseColor)
    );
    assert_eq!(load(MaterialRole::Emissive, &material.emissive, &[], None), Ok(None));

    let normal = material.normal;
    assert_eq!(image_file(&normal.expect("a normal map").image), Some("maps/n.jpg"));
    assert_eq!(
        load(MaterialRole::Normal, &normal, &[], Some(vec![5])),
        Ok(Some(("ship.normal.jpg".to_string(), vec![5])))
    );
    assert_eq!(load(MaterialRole::Normal, &normal, &[], None), Err(MaterialRole::Normal));
    let other = ImageSource::Uri { uri: "map.gif", declared: None };
    assert_eq!(image_file(&other), None);
    assert!(matches!(
        load_image_with_file(&other, &[], Some(vec![5])),
        ImageLoad::Unsupported
    ));
}

fn files(normal: Option<Vec<u8>>) -> ImageFiles {
    ImageFiles {
        base_color: None,
        metallic_roughness: None,
        emissive: None,
        occlusion: None,
        normal,
    }
}

#[test]
fn a_material_has_all_its_textures_or_none() {
    let document = document(&text());
    let material = first_material(&document).expect("images").expect("a material");
    let load = |buffers: &[Vec<u8>], normal| {
        load_textures("ship", Some(&material), buffers, files(normal))
    };
    let loaded = load(&[payload()], Some(vec![5])).ok().expect("the textures");
    assert_eq!(loaded.base_color.expect("a base color").bytes, [9, 8, 7]);
    assert_eq!(loaded.occlusion.expect("an occlusion map").name, "ship.occlusion.png");
    assert_eq!(loaded.normal.expect("a normal map").bytes, [5]);
    assert!(loaded.metallic_roughness.is_none() && loaded.emissive.is_none());
    assert_eq!(load(&[payload()], None).err(), Some(MaterialRole::Normal));
    assert_eq!(load(&[], None).err(), Some(MaterialRole::BaseColor));
    let plain = load_textures("ship", None, &[], files(Some(vec![5]))).ok().expect("nothing");
    assert!(plain.base_color.is_none() && plain.normal.is_none());
}

#[test]
fn a_material_is_retained_or_told_apart() {
    let found = |text: &str| match retained_material(&document(text)) {
        Ok(material) => Ok(material.map(|material| material.double_sided)),
        Err(defect) => Err(defect),
    };
    assert_eq!(
        found(&text()),
        Err(RetentionDefect::Material(MaterialDefect::Coordinates(MaterialRole::Normal)))
    );
    let first = text().replace("\"texCoord\": 1, ", "");
    assert_eq!(
        found(&first),
        Err(RetentionDefect::Material(MaterialDefect::WrapS(MaterialRole::Normal)))
    );
    let repeating = first.replace("{\"wrapS\": 33071}", "{\"wrapS\": 10497}");
    assert_eq!(found(&repeating), Ok(Some(true)));
    let clear = repeating.replace("\"emissiveFactor\"", "\"alphaMode\": \"BLEND\", \"emissiveFactor\"");
    assert_eq!(found(&clear), Err(RetentionDefect::Material(MaterialDefect::NotOpaque)));
    let unnamed = text().replace(", \"mimeType\": \"image/png\"", "");
    assert_eq!(found(&unnamed), Err(RetentionDefect::Image(MaterialRole::BaseColor)));
    assert_eq!(found("{\"asset\": {\"version\": \"2.0\"}}"), Ok(None));
}

#[test]
fn primitives_are_read_mesh_by_mesh() {
    let read = primitives(&text(), true).expect("primitives");
    assert_eq!(read.len(), 3);
    let first = &read[0];
    assert_eq!(first.topology, PrimitiveTopology::TriangleList);
    assert_eq!(first.positions, bits(&POSITIONS));
    assert_eq!(first.normals, Some(bits(&NORMALS)));
    assert_eq!(first.uvs, Some(bits(&UVS)));
    assert_eq!(first.tangents, Some(bits(&TANGENTS)));
    assert_eq!(first.indices, [2, 0, 1]);
    assert!(first.double_sided);
    // Bytes are multiples of the fraction that makes their greatest value one.
    let byte = |value: f32| value * (1.0 / 255.0);
    let second = &read[1];
    assert_eq!(second.topology, PrimitiveTopology::TriangleStrip);
    assert_eq!(second.positions, bits(&POSITIONS));
    assert_eq!(second.normals, None);
    assert_eq!(second.uvs, Some(bits(&[[0.0, 1.0], [byte(51.0), 0.0], [1.0, byte(102.0)]])));
    assert_eq!(second.tangents, None);
    assert_eq!(second.indices, [0, 1, 2]);
    assert!(!second.double_sided);
    // A sparse accessor without a view is zero but for its own items.
    let third = &read[2];
    assert_eq!(third.topology, PrimitiveTopology::PointList);
    assert_eq!(
        third.positions,
        bits(&[NORMALS[0], NORMALS[1], [0.0; 3], [0.0; 3]])
    );
    assert_eq!(third.indices, [0, 1, 2, 3]);
}

#[test]
fn tangents_are_read_for_sampled_materials_only() {
    let read = primitives(&text(), false).expect("primitives");
    assert_eq!(read[0].tangents, None);
    let broken = text().replace("\"TANGENT\": 3", "\"TANGENT\": 2");
    assert_eq!(
        defect(&broken),
        PrimitivesDefect::Primitive {
            place: 0,
            defect: ReadDefect::Accessor(Attribute::Tangents)
        }
    );
    assert_eq!(primitives(&broken, false).expect("primitives").len(), 3);
}

#[test]
fn accessors_that_cannot_be_walked_are_refused() {
    let refused = |place, attribute| PrimitivesDefect::Primitive {
        place,
        defect: ReadDefect::Accessor(attribute),
    };
    let positions = "\"count\": 3, \"type\": \"VEC3\",\n     \"min\"";
    let empty = text().replace(positions, &positions.replace("\"count\": 3", "\"count\": 0"));
    assert_ne!(empty, text());
    assert_eq!(defect(&empty), refused(0, Attribute::Positions));
    let floats = text().replace("\"indices\": 4,", "\"indices\": 2,");
    assert_eq!(defect(&floats), refused(0, Attribute::Indices));
    let pairs = text().replace("\"NORMAL\": 1", "\"NORMAL\": 2");
    assert_eq!(defect(&pairs), refused(0, Attribute::Normals));
    let words = text().replace("\"TEXCOORD_0\": 5", "\"TEXCOORD_0\": 0");
    assert_eq!(defect(&words), refused(1, Attribute::Uvs));
    let view = "\"byteOffset\": 36, \"byteLength\": 36";
    let close = text().replace(view, &format!("{view}, \"byteStride\": 8"));
    assert_ne!(close, text());
    assert_eq!(defect(&close), refused(0, Attribute::Normals));
    let none = text().replace("\"sparse\": {\"count\": 2", "\"sparse\": {\"count\": 0");
    assert_eq!(defect(&none), refused(2, Attribute::Positions));
    let endless = text().replace("\"byteOffset\": 36,", "\"byteOffset\": 18446744073709551615,");
    assert_eq!(defect(&endless), refused(0, Attribute::Normals));
}

#[test]
fn positions_outside_their_buffer_are_missing() {
    let missing = |place| PrimitivesDefect::Primitive {
        place,
        defect: ReadDefect::PositionsMissing,
    };
    let short = payload()[..40].to_vec();
    let read = read_primitives(text().as_bytes(), &[short], false);
    assert_eq!(read.err(), Some(missing(2)));
    let read = read_primitives(text().as_bytes(), &[], false);
    assert_eq!(read.err(), Some(missing(0)));
}

#[test]
fn a_primitive_needs_a_mode_and_positions() {
    let record = |mode| PrimitiveRecord {
        mode,
        positions: None,
        normals: None,
        uvs: None,
        tangents: None,
        indices: None,
        double_sided: true,
    };
    let read = |positions, indices| AttributesRead {
        positions,
        indices,
        normals: None,
        uvs: None,
        tangents: None,
    };
    let points = || Some(vec![[1, 2, 3], [4, 5, 6]]);
    assert!(matches!(
        assemble_primitive(&record(7), read(points(), None)),
        Err(ReadDefect::Mode)
    ));
    assert!(matches!(
        assemble_primitive(&record(0), read(None, None)),
        Err(ReadDefect::PositionsMissing)
    ));
    for (mode, topology) in [
        (0, PrimitiveTopology::PointList),
        (1, PrimitiveTopology::LineList),
        (2, PrimitiveTopology::LineLoop),
        (3, PrimitiveTopology::LineStrip),
        (4, PrimitiveTopology::TriangleList),
        (5, PrimitiveTopology::TriangleStrip),
        (6, PrimitiveTopology::TriangleFan),
    ] {
        let made = match assemble_primitive(&record(mode), read(points(), Some(vec![1, 0, 1]))) {
            Ok(made) => made,
            Err(defect) => panic!("{defect:?}"),
        };
        assert_eq!(made.topology, topology);
        assert_eq!(made.indices, [1, 0, 1]);
        assert!(made.double_sided);
    }
}

#[test]
fn what_a_document_leaves_out_is_completed() {
    let mut read = primitives(&text(), false).expect("primitives");
    read.truncate(2);
    let strip = read.pop().expect("the strip");
    let list = read.pop().expect("the list");
    assert!(list.needs_corners(3, true));
    assert!(!list.needs_corners(2, true));
    assert!(!list.needs_corners(3, false));
    assert!(!strip.needs_corners(3, true));
    let corners = vec![[1, 2, 3, 4], [5, 6, 7, 8], [9, 10, 11, 12]];
    let made = list.complete(vec![[0; 3]], corners.clone());
    assert_eq!(made.normals, bits(&NORMALS));
    assert!(matches!(&made.tangents, SourceTangents::Corners(own) if *own == corners));
    let builder = bake_model(&[made], true);
    assert_eq!(builder.ok().expect("a model").positions(), bits(&POSITIONS));
    let made = strip.complete(vec![[7; 3]; 3], Vec::new());
    assert_eq!(made.normals, [[7; 3]; 3]);

    let authored = primitives(&text(), true).expect("primitives").remove(0);
    assert!(!authored.needs_corners(3, true));
    let made = authored.complete(Vec::new(), Vec::new());
    assert!(matches!(made.tangents, SourceTangents::Vertices(own) if own == bits(&TANGENTS)));
}
