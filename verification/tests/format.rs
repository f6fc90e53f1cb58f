use avow::vec::are_eq;
use dot_vox::dict::{parse_dict, parse_string};
use dot_vox::material::parse_material;
use dot_vox::model::{parse_size, parse_voxels};
use dot_vox::palette::{create_default_index_map, extract_index_map, extract_palette};
use dot_vox::parser::{dismantle, map_chunk_to_data, parse_chunk, parse_vox_file, Chunk};
use dot_vox::placeholder;
use dot_vox::scene::{parse_layer, parse_scene_group, parse_scene_shape, parse_scene_transform};
use dot_vox::text::to_str;
use dot_vox::{
    default_palette, load_bytes, Color, Dict, DotVoxData, FormatError, Frame, Layer, Material,
    Model, SceneNode, ShapeModel, Size, Voxel, WriteError,
};

fn number(value: u32) -> Vec<u8> {
    value.to_le_bytes().to_vec()
}

fn string(text: &str) -> Vec<u8> {
    let mut bytes = number(text.len() as u32);
    bytes.extend_from_slice(text.as_bytes());
    bytes
}

fn dict_bytes(entries: &[(&str, &str)]) -> Vec<u8> {
    let mut bytes = number(entries.len() as u32);
    for (key, value) in entries {
        bytes.extend(string(key));
        bytes.extend(string(value));
    }
    bytes
}

fn dict(entries: &[(&str, &str)]) -> Dict {
    let mut map = Dict::new();
    for (key, value) in entries {
        map.insert(key.to_string(), value.to_string());
    }
    map
}

fn chunk(id: &[u8], content: &[u8], children: &[u8]) -> Vec<u8> {
    let mut bytes = id.to_vec();
    bytes.extend(number(content.len() as u32));
    bytes.extend(number(children.len() as u32));
    bytes.extend_from_slice(content);
    bytes.extend_from_slice(children);
    bytes
}

fn file(version: u32, children: &[u8]) -> Vec<u8> {
    let mut bytes = b"VOX ".to_vec();
    bytes.extend(number(version));
    bytes.extend(chunk(b"MAIN", &[], children));
    bytes
}

fn size_chunk(x: u32, y: u32, z: u32) -> Vec<u8> {
    let mut content = number(x);
    content.extend(number(y));
    content.extend(number(z));
    chunk(b"SIZE", &content, &[])
}

fn voxel_chunk(stored: &[(u8, u8, u8, u8)]) -> Vec<u8> {
    let mut content = number(stored.len() as u32);
    for (x, y, z, i) in stored {
        content.extend_from_slice(&[*x, *y, *z, *i]);
    }
    chunk(b"XYZI", &content, &[])
}

fn palette_chunk(colors: &[Color]) -> Vec<u8> {
    let mut content = Vec::new();
    for color in colors {
        content.extend_from_slice(&[color.r, color.g, color.b, color.a]);
    }
    chunk(b"RGBA", &content, &[])
}

fn material_content(id: u32, properties: &[(&str, &str)]) -> Vec<u8> {
    let mut content = number(id);
    content.extend(dict_bytes(properties));
    content
}

fn transform_content(
    id: u32,
    attributes: &[(&str, &str)],
    child: u32,
    layer: u32,
    frames: &[&[(&str, &str)]],
) -> Vec<u8> {
    let mut content = number(id);
    content.extend(dict_bytes(attributes));
    content.extend(number(child));
    content.extend(number(u32::MAX));
    content.extend(number(layer));
    content.extend(number(frames.len() as u32));
    for frame in frames {
        content.extend(dict_bytes(frame));
    }
    content
}

fn group_content(id: u32, attributes: &[(&str, &str)], children: &[u32]) -> Vec<u8> {
    let mut content = number(id);
    content.extend(dict_bytes(attributes));
    content.extend(number(children.len() as u32));
    for child in children {
        content.extend(number(*child));
    }
    content
}

fn shape_content(id: u32, attributes: &[(&str, &str)], models: &[u32]) -> Vec<u8> {
    let mut content = number(id);
    content.extend(dict_bytes(attributes));
    content.extend(number(models.len() as u32));
    for model in models {
        content.extend(number(*model));
        content.extend(dict_bytes(&[]));
    }
    content
}

fn layer_content(id: u32, attributes: &[(&str, &str)]) -> Vec<u8> {
    let mut content = number(id);
    content.extend(dict_bytes(attributes));
    content.extend(number(u32::MAX));
    content
}

const DEFAULT_MATERIAL: [(&str, &str); 5] =
    [("_type", "_diffuse"), ("_weight", "1"), ("_rough", "0.1"), ("_spec", "0.5"), ("_ior", "0.3")];

const METAL_MATERIAL: [(&str, &str); 6] = [
    ("_type", "_metal"),
    ("_weight", "0.694737"),
    ("_plastic", "1"),
    ("_rough", "0.389474"),
    ("_spec", "0.821053"),
    ("_ior", "0.3"),
];

/// The bytes of a file with one model of four voxels, a scene of four nodes,
/// eight layers, the default palette and 256 materials.
fn placeholder_bytes(special_material: Option<u32>) -> Vec<u8> {
    let mut children = size_chunk(2, 2, 2);
    children.extend(voxel_chunk(&[(0, 0, 0, 226), (0, 1, 1, 216), (1, 0, 1, 236), (1, 1, 0, 6)]));
    children.extend(chunk(b"nTRN", &transform_content(0, &[], 1, u32::MAX, &[&[]]), &[]));
    children.extend(chunk(b"nGRP", &group_content(1, &[], &[2]), &[]));
    children.extend(chunk(b"nTRN", &transform_content(2, &[], 3, 0, &[&[("_t", "0 0 1")]]), &[]));
    children.extend(chunk(b"nSHP", &shape_content(3, &[], &[0]), &[]));
    for layer in 0..8u32 {
        let name = layer.to_string();
        children.extend(chunk(b"LAYR", &layer_content(layer, &[("_name", name.as_str())]), &[]));
    }
    children.extend(palette_chunk(&default_palette()));
    for id in 0..256u32 {
        let properties: &[(&str, &str)] =
            if special_material == Some(id) { &METAL_MATERIAL } else { &DEFAULT_MATERIAL };
        children.extend(chunk(b"MATL", &material_content(id, properties), &[]));
    }
    file(150, &children)
}

fn placeholder_scenes() -> Vec<SceneNode> {
    vec![
        SceneNode::Transform {
            attributes: Dict::new(),
            frames: vec![Frame::default()],
            child: 1,
            layer_id: 4294967295,
        },
        SceneNode::Group { attributes: Dict::new(), children: vec![2] },
        SceneNode::Transform {
            attributes: Dict::new(),
            frames: {
                let mut map = Dict::new();
                map.insert("_t".to_owned(), "0 0 1".to_owned());

                vec![Frame::new(map)]
            },
            child: 3,
            layer_id: 0,
        },
        SceneNode::Shape {
            attributes: Dict::new(),
            models: vec![ShapeModel { model_id: 0, attributes: Dict::new() }],
        },
    ]
}

fn placeholder_layers() -> Vec<Layer> {
    (0..8)
        .into_iter()
        .map(|layer: u32| Layer {
            attributes: {
                let mut map = Dict::new();
                map.insert("_name".to_string(), layer.to_string());

                map
            },
        })
        .collect()
}

fn default_materials() -> Vec<Material> {
    (0..256)
        .into_iter()
        .map(|i| Material {
            id: i,
            properties: {
                let mut map = Dict::new();
                map.insert("_ior".to_owned(), "0.3".to_owned());
                map.insert("_spec".to_owned(), "0.5".to_owned());
                map.insert("_rough".to_owned(), "0.1".to_owned());
                map.insert("_type".to_owned(), "_diffuse".to_owned());
                map.insert("_weight".to_owned(), "1".to_owned());
                map
            },
        })
        .collect()
}

fn placeholder(
    palette: Vec<Color>,
    materials: Vec<Material>,
    scenes: Vec<SceneNode>,
    layers: Vec<Layer>,
) -> DotVoxData {
    DotVoxData {
        version: 150,
        models: vec![Model {
            size: Size { x: 2, y: 2, z: 2 },
            voxels: vec![
                Voxel { x: 0, y: 0, z: 0, i: 225 },
                Voxel { x: 0, y: 1, z: 1, i: 215 },
                Voxel { x: 1, y: 0, z: 1, i: 235 },
                Voxel { x: 1, y: 1, z: 0, i: 5 },
            ],
        }],
        palette,
        materials,
        scenes,
        layers,
    }
}

fn compare_data(actual: DotVoxData, expected: DotVoxData) {
    assert_eq!(actual.version, expected.version);
    assert_eq!(actual.models.len(), expected.models.len());
    actual.models.into_iter().zip(expected.models.into_iter()).for_each(|(actual, expected)| {
        assert_eq!(actual.size, expected.size);
        are_eq(actual.voxels, expected.voxels);
    });
    are_eq(actual.palette, expected.palette);
    are_eq(actual.materials, expected.materials);
    are_eq(actual.scenes, expected.scenes);
    are_eq(actual.layers, expected.layers)
}

#[test]
fn can_parse_vox_file_with_palette() {
    let bytes = placeholder_bytes(None);
    let result = parse_vox_file(&bytes);
    assert!(result.is_ok());
    let (_, models) = result.unwrap();
    compare_data(
        models,
        placeholder(
            default_palette(),
            default_materials(),
            placeholder::scenes(),
            placeholder::layers(),
        ),
    );
}

#[test]
fn can_parse_vox_file_with_materials() {
    let bytes = placeholder_bytes(Some(216));
    let result = parse_vox_file(&bytes);
    assert!(result.is_ok());
    let (_, voxel_data) = result.unwrap();
    let mut materials: Vec<Material> = default_materials();
    materials[216] = Material {
        id: 216,
        properties: {
            let mut map = Dict::new();
            map.insert("_ior".to_owned(), "0.3".to_owned());
            map.insert("_spec".to_owned(), "0.821053".to_owned());
            map.insert("_rough".to_owned(), "0.389474".to_owned());
            map.insert("_type".to_owned(), "_metal".to_owned());
            map.insert("_plastic".to_owned(), "1".to_owned());
            map.insert("_weight".to_owned(), "0.694737".to_owned());
            map
        },
    };
    compare_data(
        voxel_data,
        placeholder(default_palette(), materials, placeholder::scenes(), placeholder::layers()),
    );
}

fn write_and_load(data: DotVoxData) {
    let mut buffer = Vec::new();
    let write_result = data.write_vox(&mut buffer);
    assert!(write_result.is_ok());
    let load_result = load_bytes(&buffer);
    assert!(load_result.is_ok());
    compare_data(load_result.unwrap(), data);
}

#[test]
fn can_write_vox_format_without_palette_nor_materials() {
    write_and_load(placeholder(Vec::new(), Vec::new(), Vec::new(), Vec::new()));
}

#[test]
fn can_write_vox_format_without_materials() {
    write_and_load(placeholder(default_palette(), Vec::new(), Vec::new(), Vec::new()));
}

#[test]
fn placeholder_scene_and_layers() {
    are_eq(placeholder::scenes(), placeholder_scenes());
    are_eq(placeholder::layers(), placeholder_layers());
}

/// A small generator of numbers that look random, the same on every run.
struct Noise(u64);

impl Noise {
    fn next(&mut self) -> u64 {
        self.0 ^= self.0 << 13;
        self.0 ^= self.0 >> 7;
        self.0 ^= self.0 << 17;
        self.0
    }

    fn below(&mut self, bound: usize) -> usize {
        (self.next() % bound as u64) as usize
    }
}

fn exercise(data: &DotVoxData) {
    let _ = data.traverse();
    for node in &data.scenes {
        if let SceneNode::Transform { frames, .. } = node {
            for frame in frames {
                let _ = (frame.position(), frame.orientation(), frame.frame_index());
            }
        }
    }
    for layer in &data.layers {
        let _ = (layer.name(), layer.hidden(), layer.color());
    }
    let mut written = Vec::new();
    if data.write_vox(&mut written).is_ok() {
        let again = load_bytes(&written).unwrap();
        assert_eq!(again.models, data.models);
        assert_eq!(again.scenes, data.scenes);
        assert_eq!(again.palette, data.palette);
    }
}

#[test]
fn damaged_files_give_errors_or_data_and_no_crash() {
    let mut children = size_chunk(2, 2, 2);
    children.extend(voxel_chunk(&[(0, 0, 0, 226), (0, 1, 1, 216), (1, 0, 1, 0), (1, 1, 0, 255)]));
    children.extend(chunk(b"nTRN", &transform_content(0, &[("_name", "r")], 1, 9, &[&[("_r", "40")]]), &[]));
    children.extend(chunk(b"nGRP", &group_content(1, &[], &[2, 3]), &[]));
    children.extend(chunk(b"nTRN", &transform_content(2, &[], 3, 0, &[&[("_t", "0 0 1")]]), &[]));
    children.extend(chunk(b"nSHP", &shape_content(3, &[("k", "v")], &[0]), &[]));
    children.extend(chunk(b"LAYR", &layer_content(0, &[("_name", "0"), ("_color", "1 2 3")]), &[]));
    children.extend(chunk(b"MAIN", &[], &size_chunk(1, 1, 1)));
    children.extend(palette_chunk(&default_palette()[..16]));
    children.extend(chunk(b"MATL", &material_content(3, &DEFAULT_MATERIAL), &[]));
    let good = file(150, &children);
    exercise(&load_bytes(&good).unwrap());
    let mut noise = Noise(0x2545_f491_4f6c_dd1d);
    let mut failures = 0;
    for _ in 0..20_000 {
        let mut bytes = good.clone();
        for _ in 0..1 + noise.below(3) {
            if bytes.is_empty() {
                break;
            }
            let at = noise.below(bytes.len());
            match noise.below(4) {
                0 => bytes[at] = noise.next() as u8,
                1 => bytes[at] = bytes[at].wrapping_add(1),
                2 => bytes[at] = 0xff,
                _ => bytes.truncate(at),
            }
        }
        match load_bytes(&bytes) {
            Ok(data) => exercise(&data),
            Err(_) => failures += 1,
        }
    }
    assert!(failures > 1000);
}

#[test]
fn arbitrary_bytes_give_errors_or_data_and_no_crash() {
    let mut noise = Noise(0x9e37_79b9_7f4a_7c15);
    for round in 0..20_000 {
        let len = noise.below(96);
        let mut bytes: Vec<u8> = (0..len).map(|_| noise.next() as u8).collect();
        if round % 2 == 0 && len >= 8 {
            bytes[..4].copy_from_slice(b"VOX ");
        }
        if round % 4 == 0 && len >= 24 {
            bytes[8..12].copy_from_slice(b"MAIN");
            bytes[12..16].copy_from_slice(&[0, 0, 0, 0]);
            bytes[16..20].copy_from_slice(&((len - 20) as u32).to_le_bytes());
        }
        if let Ok(data) = load_bytes(&bytes) {
            exercise(&data);
        }
        let _ = parse_chunk(&bytes).map(|(_, chunk)| dismantle(vec![chunk]));
        let _ = parse_dict(&bytes);
        let _ = parse_scene_transform(&bytes);
        let _ = parse_scene_group(&bytes);
        let _ = parse_scene_shape(&bytes);
        let _ = parse_layer(&bytes);
        let _ = parse_voxels(&bytes);
        let _ = parse_material(&bytes);
        let _ = extract_palette(&bytes);
    }
}

#[test]
fn can_parse_size_chunk() {
    let bytes = size_chunk(24, 24, 24);
    let result = parse_chunk(&bytes);
    assert!(result.is_ok());
    let (_, size) = result.unwrap();
    assert_eq!(size, Chunk::Size(Size { x: 24, y: 24, z: 24 }));
}

#[test]
fn parser_can_parse_voxels_chunk() {
    let bytes = voxel_chunk(&[(0, 0, 0, 226), (0, 1, 1, 216), (1, 0, 1, 236), (1, 1, 0, 6)]);
    let result = parse_chunk(&bytes);
    assert!(result.is_ok());
    let (_, voxels) = result.unwrap();
    match voxels {
        Chunk::Voxels(voxels) => are_eq(
            voxels,
            vec![
                Voxel { x: 0, y: 0, z: 0, i: 225 },
                Voxel { x: 0, y: 1, z: 1, i: 215 },
                Voxel { x: 1, y: 0, z: 1, i: 235 },
                Voxel { x: 1, y: 1, z: 0, i: 5 },
            ],
        ),
        chunk => panic!("Expecting Voxel chunk, got {:?}", chunk),
    };
}

#[test]
fn can_parse_palette_chunk() {
    let bytes = palette_chunk(&default_palette());
    let result = parse_chunk(&bytes);
    assert!(result.is_ok());
    let (_, palette) = result.unwrap();
    match palette {
        Chunk::Palette(palette) => are_eq(palette, default_palette()),
        chunk => panic!("Expecting Palette chunk, got {:?}", chunk),
    };
}

#[test]
fn can_parse_a_material_chunk() {
    let bytes = material_content(0, &DEFAULT_MATERIAL);
    let result = parse_material(&bytes);
    match result {
        Ok((_, material)) => {
            assert_eq!(material.id, 0);
            assert_eq!(material.properties.get("_type"), Some(&"_diffuse".to_owned()));
            assert_eq!(material.properties.get("_weight"), Some(&"1".to_owned()));
            assert_eq!(material.properties.get("_rough"), Some(&"0.1".to_owned()));
            assert_eq!(material.properties.get("_spec"), Some(&"0.5".to_owned()));
            assert_eq!(material.properties.get("_ior"), Some(&"0.3".to_owned()));
        }
        _ => panic!("Expected Done, got {:?}", result),
    }
}

#[test]
fn material_type_and_media_type_are_read_from_the_properties() {
    let material = Material { id: 7, properties: dict(&[("_type", "_glass"), ("_media_type", "_scatter")]) };
    assert_eq!(material.material_type(), Some("_glass"));
    assert_eq!(material.media_type(), Some("_scatter"));
    assert_eq!(material.property("_ior"), None);
    let bare = Material { id: 7, properties: Dict::new() };
    assert_eq!(bare.material_type(), None);
    assert_eq!(bare.media_type(), None);
}

#[test]
fn voxel_index_is_one_less_and_does_not_wrap() {
    let bytes = voxel_chunk(&[(1, 2, 3, 0), (4, 5, 6, 1), (7, 8, 9, 2), (7, 8, 9, 255)]);
    match parse_chunk(&bytes).unwrap().1 {
        Chunk::Voxels(voxels) => {
            assert_eq!(voxels[0], Voxel::new(1, 2, 3, 0));
            assert_eq!(voxels[1], Voxel::new(4, 5, 6, 0));
            assert_eq!(voxels[2], Voxel::new(7, 8, 9, 1));
            assert_eq!(voxels[3], Voxel::new(7, 8, 9, 254));
        }
        chunk => panic!("Expecting Voxel chunk, got {:?}", chunk),
    }
}

#[test]
fn num_vox_bytes_counts_both_chunks() {
    let empty = Model { size: Size { x: 1, y: 1, z: 1 }, voxels: vec![] };
    assert_eq!(empty.num_vox_bytes(), 40);
    let three = Model { size: Size { x: 1, y: 1, z: 1 }, voxels: vec![Voxel::new(0, 0, 0, 0); 3] };
    assert_eq!(three.num_vox_bytes(), 52);
    let mut written = Vec::new();
    let data = DotVoxData {
        version: 1,
        models: vec![three],
        palette: vec![],
        materials: vec![],
        scenes: vec![],
        layers: vec![],
    };
    data.write_vox(&mut written).unwrap();
    // Magic, version, MAIN header, the model, and an empty palette chunk.
    assert_eq!(written.len(), 4 + 4 + 12 + 52 + 12);
}

#[test]
fn a_file_without_palette_has_the_default_palette() {
    let without = file(150, &size_chunk(1, 1, 1));
    let with = file(150, &[size_chunk(1, 1, 1), palette_chunk(&default_palette())].concat());
    let without = load_bytes(&without).unwrap();
    let with = load_bytes(&with).unwrap();
    assert_eq!(without.palette.len(), 256);
    assert_eq!(without.palette, with.palette);
    assert_eq!(without.palette, default_palette());
}

#[test]
fn the_last_palette_wins() {
    let red = Color { r: 255, g: 0, b: 0, a: 255 };
    let blue = Color { r: 0, g: 0, b: 255, a: 255 };
    let bytes = file(150, &[palette_chunk(&[red]), palette_chunk(&[blue, red])].concat());
    assert_eq!(load_bytes(&bytes).unwrap().palette, vec![blue, red]);
}

#[test]
fn default_palette_holds_the_cube_the_ramps_and_a_last_transparent_colour() {
    let palette = default_palette();
    assert_eq!(palette.len(), 256);
    assert_eq!(palette[0], Color { r: 255, g: 255, b: 255, a: 255 });
    assert_eq!(palette[1], Color { r: 255, g: 255, b: 204, a: 255 });
    assert_eq!(palette[5], Color { r: 255, g: 255, b: 0, a: 255 });
    assert_eq!(palette[6], Color { r: 255, g: 204, b: 255, a: 255 });
    assert_eq!(palette[36], Color { r: 204, g: 255, b: 255, a: 255 });
    assert_eq!(palette[214], Color { r: 0, g: 0, b: 51, a: 255 });
    assert_eq!(palette[215], Color { r: 238, g: 0, b: 0, a: 255 });
    assert_eq!(palette[224], Color { r: 17, g: 0, b: 0, a: 255 });
    assert_eq!(palette[225], Color { r: 0, g: 238, b: 0, a: 255 });
    assert_eq!(palette[235], Color { r: 0, g: 0, b: 238, a: 255 });
    assert_eq!(palette[245], Color { r: 238, g: 238, b: 238, a: 255 });
    assert_eq!(palette[247], Color { r: 187, g: 187, b: 187, a: 255 });
    assert_eq!(palette[254], Color { r: 17, g: 17, b: 17, a: 255 });
    assert_eq!(palette[255], Color { r: 0, g: 0, b: 0, a: 0 });
}

#[test]
fn default_index_map_sends_each_index_to_the_next_slot() {
    let map = create_default_index_map();
    assert_eq!(map[0], 1);
    assert_eq!(map[100], 101);
    assert_eq!(map[254], 255);
    assert_eq!(map[255], 0);
}

#[test]
fn index_map_takes_exactly_256_bytes() {
    let bytes: Vec<u8> = (0..=255u8).collect();
    let (rest, map) = extract_index_map(&bytes).unwrap();
    assert!(rest.is_empty());
    assert_eq!(map, &bytes[..]);
    assert_eq!(extract_index_map(&bytes[..255]).err(), Some(FormatError::Truncated));
    let mut longer = bytes.clone();
    longer.push(0);
    assert_eq!(extract_index_map(&longer).err(), Some(FormatError::TrailingBytes));
}

#[test]
fn colour_turns_into_its_four_bytes() {
    let bytes: [u8; 4] = Color { r: 1, g: 2, b: 3, a: 4 }.into();
    assert_eq!(bytes, [1, 2, 3, 4]);
}

#[test]
fn palette_with_a_broken_colour_is_rejected() {
    assert_eq!(extract_palette(&[1, 2, 3, 4, 5]).err(), Some(FormatError::TrailingBytes));
    let (rest, colors) = extract_palette(&[1, 2, 3, 4, 5, 6, 7, 8]).unwrap();
    assert!(rest.is_empty());
    assert_eq!(colors, vec![Color { r: 1, g: 2, b: 3, a: 4 }, Color { r: 5, g: 6, b: 7, a: 8 }]);
    // In a file the chunk is kept as an invalid one and changes nothing.
    let bytes = file(150, &chunk(b"RGBA", &[1, 2, 3, 4, 5], &[]));
    assert_eq!(load_bytes(&bytes).unwrap().palette, default_palette());
    assert_eq!(
        parse_chunk(&chunk(b"RGBA", &[1, 2, 3, 4, 5], &[])).unwrap().1,
        Chunk::Invalid(vec![1, 2, 3, 4, 5])
    );
}

#[test]
fn unknown_chunks_are_kept_by_their_id_and_ignored() {
    let bytes = [chunk(b"rOBJ", &[1, 2, 3], &[]), vec![9]].concat();
    let (rest, parsed) = parse_chunk(&bytes).unwrap();
    assert_eq!(rest, &[9u8][..]);
    assert_eq!(parsed, Chunk::Unknown("rOBJ".to_owned()));
    // A chunk with children under another id than MAIN is unknown too.
    let with_children = chunk(b"PACK", &number(2), &size_chunk(1, 1, 1));
    assert_eq!(parse_chunk(&with_children).unwrap().1, Chunk::Unknown("PACK".to_owned()));
    // MAIN without children is read as a chunk without children.
    assert_eq!(parse_chunk(&chunk(b"MAIN", &[], &[])).unwrap().1, Chunk::Unknown("MAIN".to_owned()));
    let data = load_bytes(&file(3, &[chunk(b"rOBJ", &[], &[]), size_chunk(1, 2, 3)].concat())).unwrap();
    assert_eq!(data.version, 3);
    assert!(data.models.is_empty());
}

#[test]
fn a_root_that_is_no_main_chunk_gives_empty_data() {
    let mut bytes = b"VOX ".to_vec();
    bytes.extend(number(200));
    bytes.extend(size_chunk(1, 1, 1));
    bytes.extend_from_slice(&[1, 2, 3]);
    let (rest, data) = parse_vox_file(&bytes).unwrap();
    assert_eq!(rest, &[1u8, 2, 3][..]);
    assert_eq!(
        data,
        DotVoxData {
            version: 200,
            models: vec![],
            palette: vec![],
            materials: vec![],
            scenes: vec![],
            layers: vec![],
        }
    );
    assert_eq!(
        map_chunk_to_data(7, Chunk::Unknown("x".to_owned())),
        DotVoxData {
            version: 7,
            models: vec![],
            palette: vec![],
            materials: vec![],
            scenes: vec![],
            layers: vec![],
        }
    );
}

#[test]
fn sizes_and_voxels_are_paired_through_one_slot() {
    let main = Chunk::Main(vec![
        Chunk::Voxels(vec![Voxel::new(9, 9, 9, 9)]),
        Chunk::Size(Size { x: 1, y: 1, z: 1 }),
        Chunk::Size(Size { x: 2, y: 2, z: 2 }),
        Chunk::Voxels(vec![Voxel::new(0, 0, 0, 0)]),
        Chunk::Voxels(vec![Voxel::new(1, 1, 1, 1)]),
        Chunk::Main(vec![Chunk::Size(Size { x: 5, y: 5, z: 5 })]),
        Chunk::Invalid(vec![1]),
        Chunk::Size(Size { x: 3, y: 3, z: 3 }),
    ]);
    let data = map_chunk_to_data(1, main);
    assert_eq!(
        data.models,
        vec![Model { size: Size { x: 2, y: 2, z: 2 }, voxels: vec![Voxel::new(0, 0, 0, 0)] }]
    );
    assert_eq!(data.palette, default_palette());
}

#[test]
fn layers_materials_and_nodes_keep_their_order() {
    let children = [
        chunk(b"LAYR", &layer_content(5, &[("_name", "five")]), &[]),
        chunk(b"MATL", &material_content(9, &[("_type", "_metal")]), &[]),
        chunk(b"nSHP", &shape_content(77, &[("a", "b")], &[3, 1]), &[]),
        chunk(b"LAYR", &layer_content(0, &[("_hidden", "1")]), &[]),
        chunk(b"MATL", &material_content(9, &[]), &[]),
        chunk(b"nGRP", &group_content(0, &[], &[4, 5, 6]), &[]),
    ]
    .concat();
    let data = load_bytes(&file(150, &children)).unwrap();
    assert_eq!(
        data.layers,
        vec![
            Layer { attributes: dict(&[("_name", "five")]) },
            Layer { attributes: dict(&[("_hidden", "1")]) }
        ]
    );
    assert_eq!(
        data.materials,
        vec![
            Material { id: 9, properties: dict(&[("_type", "_metal")]) },
            Material { id: 9, properties: Dict::new() }
        ]
    );
    assert_eq!(
        data.scenes,
        vec![
            SceneNode::Shape {
                attributes: dict(&[("a", "b")]),
                models: vec![
                    ShapeModel { model_id: 3, attributes: Dict::new() },
                    ShapeModel { model_id: 1, attributes: Dict::new() }
                ],
            },
            SceneNode::Group { attributes: Dict::new(), children: vec![4, 5, 6] },
        ]
    );
}

#[test]
fn bad_magic_is_rejected() {
    assert_eq!(load_bytes(&[]).err(), Some(FormatError::MagicMismatch));
    assert_eq!(load_bytes(b"VOX").err(), Some(FormatError::MagicMismatch));
    assert_eq!(load_bytes(b"VOXX\x96\0\0\0").err(), Some(FormatError::MagicMismatch));
    let mut bytes = placeholder_bytes(None);
    bytes[3] = b'_';
    assert_eq!(load_bytes(&bytes).err(), Some(FormatError::MagicMismatch));
}

#[test]
fn truncated_input_is_rejected() {
    assert_eq!(load_bytes(b"VOX ").err(), Some(FormatError::Truncated));
    assert_eq!(load_bytes(b"VOX \x96\0\0").err(), Some(FormatError::Truncated));
    assert_eq!(load_bytes(b"VOX \x96\0\0\0").err(), Some(FormatError::Truncated));
    assert_eq!(load_bytes(b"VOX \x96\0\0\0MAIN\0\0\0\0\0\0\0").err(), Some(FormatError::Truncated));
    // Every proper prefix of a file ends in the middle of a chunk.
    let bytes = placeholder_bytes(None);
    for len in [8, 19, 20, 21, 100, bytes.len() / 2, bytes.len() - 1] {
        assert_eq!(load_bytes(&bytes[..len]).err(), Some(FormatError::Truncated), "{}", len);
    }
    assert!(load_bytes(&bytes).is_ok());
}

#[test]
fn oversized_declared_lengths_are_rejected() {
    let mut content_too_long = b"VOX \x96\0\0\0MAIN".to_vec();
    content_too_long.extend(number(u32::MAX));
    content_too_long.extend(number(0));
    assert_eq!(load_bytes(&content_too_long).err(), Some(FormatError::Truncated));
    let mut children_too_long = b"VOX \x96\0\0\0MAIN".to_vec();
    children_too_long.extend(number(0));
    children_too_long.extend(number(13));
    children_too_long.extend(size_chunk(1, 1, 1)[..12].to_vec());
    assert_eq!(load_bytes(&children_too_long).err(), Some(FormatError::Truncated));
    // A child that declares more than the children of MAIN hold fails the file.
    let mut child = size_chunk(1, 1, 1);
    child[4] = 13;
    assert_eq!(load_bytes(&file(150, &child)).err(), Some(FormatError::Truncated));
    // Bytes that are left over under MAIN are no chunk.
    let trailing = [size_chunk(1, 1, 1), vec![0]].concat();
    assert_eq!(load_bytes(&file(150, &trailing)).err(), Some(FormatError::Truncated));
}

#[test]
fn chunk_id_must_be_utf8() {
    assert_eq!(parse_chunk(&chunk(&[0xff, 0xfe, 0, 0], &[], &[])).err(), Some(FormatError::InvalidUtf8));
    assert_eq!(
        load_bytes(&file(150, &chunk(&[b'a', 0x80, b'b', b'c'], &[], &[]))).err(),
        Some(FormatError::InvalidUtf8)
    );
    assert_eq!(
        parse_chunk(&chunk("né!".as_bytes(), &[], &[])).unwrap().1,
        Chunk::Unknown("né!".to_owned())
    );
}

#[test]
fn a_leaf_that_cannot_be_read_is_kept_as_invalid() {
    let short = chunk(b"SIZE", &[1, 0, 0, 0], &[]);
    assert_eq!(parse_chunk(&short).unwrap().1, Chunk::Invalid(vec![1, 0, 0, 0]));
    let short_node = chunk(b"nTRN", &number(1), &[]);
    assert_eq!(parse_chunk(&short_node).unwrap().1, Chunk::Invalid(number(1)));
    let many = [short.clone(), size_chunk(4, 5, 6), voxel_chunk(&[(1, 1, 1, 1)])].concat();
    let data = load_bytes(&file(150, &many)).unwrap();
    assert_eq!(
        data.models,
        vec![Model { size: Size { x: 4, y: 5, z: 6 }, voxels: vec![Voxel::new(1, 1, 1, 0)] }]
    );
}

#[test]
fn counts_are_checked_against_the_bytes_that_are_left() {
    // A dictionary that claims more entries than eight bytes each allow.
    let mut content = number(2);
    content.extend(string("key"));
    content.extend(string("v"));
    assert_eq!(parse_dict(&content).err(), Some(FormatError::InvalidCount));
    assert_eq!(parse_dict(&number(u32::MAX)).err(), Some(FormatError::InvalidCount));
    assert_eq!(parse_dict(&[1, 0, 0]).err(), Some(FormatError::Truncated));
    // Voxels.
    let mut voxels = number(2);
    voxels.extend_from_slice(&[1, 2, 3, 4, 5, 6, 7]);
    assert_eq!(parse_voxels(&voxels).err(), Some(FormatError::InvalidCount));
    assert_eq!(parse_voxels(&number(0xffff_ffff)).err(), Some(FormatError::InvalidCount));
    // Frames, children and model references.
    let mut transform = transform_content(0, &[], 1, 2, &[]);
    let at = transform.len() - 4;
    transform[at] = 1;
    assert_eq!(parse_scene_transform(&transform).err(), Some(FormatError::InvalidCount));
    let mut group = group_content(0, &[], &[7]);
    let at = group.len() - 8;
    group[at] = 2;
    assert_eq!(parse_scene_group(&group).err(), Some(FormatError::InvalidCount));
    let mut shape = shape_content(0, &[], &[7]);
    let at = shape.len() - 12;
    shape[at] = 2;
    assert_eq!(parse_scene_shape(&shape).err(), Some(FormatError::InvalidCount));
    // Enough bytes for the count, but an element that is cut short.
    let mut cut = number(1);
    cut.extend(string("key"));
    cut.extend(number(5));
    cut.extend_from_slice(b"val");
    assert_eq!(parse_dict(&cut).err(), Some(FormatError::Truncated));
}

#[test]
fn strings_must_be_utf8() {
    let mut bytes = number(2);
    bytes.extend_from_slice(&[0xc3, 0x28]);
    assert_eq!(parse_string(&bytes).err(), Some(FormatError::InvalidUtf8));
    let mut content = number(1);
    content.extend(bytes.clone());
    content.extend(string("value"));
    assert_eq!(parse_dict(&content).err(), Some(FormatError::InvalidUtf8));
    assert!(to_str(&[0xc3, 0x28]).is_err());
    assert_eq!(to_str("grüß".as_bytes()).unwrap(), "grüß");
    let followed = [string("grüß dich"), vec![1, 2]].concat();
    let (rest, text) = parse_string(&followed).unwrap();
    assert_eq!(text, "grüß dich");
    assert_eq!(rest, &[1u8, 2][..]);
    // In a file the node is kept as an invalid chunk.
    let node = chunk(b"nGRP", &[number(0), content, number(0)].concat(), &[]);
    assert!(load_bytes(&file(150, &node)).unwrap().scenes.is_empty());
}

#[test]
fn dictionary_keeps_the_last_value_of_a_key() {
    let bytes = dict_bytes(&[("a", "1"), ("b", "2"), ("a", "3")]);
    let (rest, parsed) = parse_dict(&bytes).unwrap();
    assert!(rest.is_empty());
    assert_eq!(parsed.len(), 2);
    assert_eq!(parsed.get("a"), Some(&"3".to_owned()));
    assert_eq!(parsed.get("b"), Some(&"2".to_owned()));
    assert_eq!(parsed, dict(&[("b", "2"), ("a", "3")]));
}

#[test]
fn leaf_parsers_read_what_the_layout_says() {
    let bytes = [number(1), number(2), number(0x01020304), vec![5]].concat();
    let (rest, size) = parse_size(&bytes).unwrap();
    assert_eq!(size, Size { x: 1, y: 2, z: 0x01020304 });
    assert_eq!(rest, &[5u8][..]);
    assert_eq!(parse_size(&[0; 11]).err(), Some(FormatError::Truncated));

    let transform = transform_content(9, &[("_name", "t")], 4, 6, &[&[("_t", "1 2 3")], &[("_f", "8")]]);
    let (rest, node) = parse_scene_transform(&transform).unwrap();
    assert!(rest.is_empty());
    assert_eq!(node.header.id, 9);
    assert_eq!(node.header.attributes, dict(&[("_name", "t")]));
    assert_eq!(node.child, 4);
    assert_eq!(node.layer_id, 6);
    assert_eq!(node.frames, vec![dict(&[("_t", "1 2 3")]), dict(&[("_f", "8")])]);

    let (_, group) = parse_scene_group(&group_content(3, &[], &[7, 8, 9])).unwrap();
    assert_eq!(group.header.id, 3);
    assert_eq!(group.children, vec![7, 8, 9]);

    let (_, shape) = parse_scene_shape(&shape_content(3, &[], &[2, 0])).unwrap();
    assert_eq!(
        shape.models,
        vec![
            ShapeModel { model_id: 2, attributes: Dict::new() },
            ShapeModel { model_id: 0, attributes: Dict::new() }
        ]
    );

    let bytes = [layer_content(4, &[("_name", "l")]), vec![1]].concat();
    let (rest, layer) = parse_layer(&bytes).unwrap();
    assert_eq!(layer.id, 4);
    assert_eq!(layer.attributes, dict(&[("_name", "l")]));
    assert_eq!(rest, &[1u8][..]);
    assert_eq!(parse_layer(&layer_content(4, &[])[..11]).err(), Some(FormatError::Truncated));
}

#[test]
fn nested_main_chunks_are_read_and_ignored() {
    let inner = chunk(b"MAIN", &[], &size_chunk(9, 9, 9));
    let children = [size_chunk(1, 1, 1), inner, voxel_chunk(&[(0, 0, 0, 1)])].concat();
    let (_, root) = parse_chunk(&chunk(b"MAIN", &[], &children)).unwrap();
    assert_eq!(
        root,
        Chunk::Main(vec![
            Chunk::Size(Size { x: 1, y: 1, z: 1 }),
            Chunk::Main(vec![Chunk::Size(Size { x: 9, y: 9, z: 9 })]),
            Chunk::Voxels(vec![Voxel::new(0, 0, 0, 0)]),
        ])
    );
    let data = load_bytes(&file(150, &children)).unwrap();
    assert_eq!(
        data.models,
        vec![Model { size: Size { x: 1, y: 1, z: 1 }, voxels: vec![Voxel::new(0, 0, 0, 0)] }]
    );
    // A failure deep inside fails the whole file.
    let broken = chunk(b"MAIN", &[], &size_chunk(9, 9, 9)[..20]);
    assert_eq!(load_bytes(&file(150, &broken)).err(), Some(FormatError::Truncated));
}

#[test]
fn main_chunks_nested_very_deep_are_read_without_recursion() {
    let depth: u32 = 200_000;
    let innermost = size_chunk(1, 2, 3);
    let mut bytes = Vec::new();
    for level in 0..depth {
        bytes.extend_from_slice(b"MAIN");
        bytes.extend(number(0));
        bytes.extend(number(innermost.len() as u32 + 12 * (depth - 1 - level)));
    }
    bytes.extend(innermost);
    let mut whole = b"VOX ".to_vec();
    whole.extend(number(150));
    whole.extend(bytes.clone());
    let data = load_bytes(&whole).unwrap();
    assert!(data.models.is_empty());
    assert_eq!(data.palette, default_palette());
    // The same tree as a child, with a chunk behind it that is cut short.
    let broken = [bytes.clone(), size_chunk(1, 1, 1)[..20].to_vec()].concat();
    assert_eq!(load_bytes(&file(150, &broken)).err(), Some(FormatError::Truncated));
    // A tree that the caller holds is taken apart by hand.
    let (rest, tree) = parse_chunk(&bytes).unwrap();
    assert!(rest.is_empty());
    dismantle(vec![tree]);
}

#[test]
fn round_trip_of_a_scene() {
    let data = placeholder(
        vec![Color { r: 1, g: 2, b: 3, a: 4 }],
        Vec::new(),
        placeholder_scenes(),
        Vec::new(),
    );
    let mut buffer = vec![42];
    assert_eq!(data.write_vox(&mut buffer), Ok(()));
    assert_eq!(buffer[0], 42);
    compare_data(load_bytes(&buffer[1..]).unwrap(), data);
}

#[test]
fn round_trip_of_several_models_and_rich_nodes() {
    let data = DotVoxData {
        version: 200,
        models: vec![
            Model { size: Size { x: 1, y: 2, z: 3 }, voxels: vec![Voxel::new(0, 1, 2, 254)] },
            Model { size: Size { x: 4, y: 5, z: 6 }, voxels: vec![] },
            Model {
                size: Size { x: u32::MAX, y: 0, z: 7 },
                voxels: vec![Voxel::new(3, 3, 3, 0), Voxel::new(255, 255, 255, 17)],
            },
        ],
        palette: default_palette(),
        materials: Vec::new(),
        scenes: vec![
            SceneNode::Transform {
                attributes: dict(&[("_name", "root"), ("_hidden", "0")]),
                frames: vec![
                    Frame::new(dict(&[("_t", "-3 4 5"), ("_r", "40")])),
                    Frame::new(dict(&[("_f", "10")])),
                    Frame::default(),
                ],
                child: 2,
                layer_id: 7,
            },
            SceneNode::Shape {
                attributes: dict(&[("ключ", "значение")]),
                models: vec![
                    ShapeModel { model_id: 2, attributes: dict(&[("_f", "0")]) },
                    ShapeModel { model_id: 0, attributes: Dict::new() },
                ],
            },
            SceneNode::Group { attributes: dict(&[("", "")]), children: vec![1, 1, 4000000000] },
            SceneNode::Group { attributes: Dict::new(), children: vec![] },
            SceneNode::Transform { attributes: Dict::new(), frames: vec![], child: 0, layer_id: 0 },
        ],
        layers: Vec::new(),
    };
    let mut buffer = Vec::new();
    assert_eq!(data.write_vox(&mut buffer), Ok(()));
    let loaded = load_bytes(&buffer).unwrap();
    assert_eq!(loaded, data);
    // Writing what was read gives the same bytes again.
    let mut again = Vec::new();
    assert_eq!(loaded.write_vox(&mut again), Ok(()));
    assert_eq!(again, buffer);
}

#[test]
fn materials_and_layers_are_not_written() {
    let data = placeholder(default_palette(), default_materials(), placeholder_scenes(), placeholder_layers());
    let mut buffer = Vec::new();
    assert_eq!(data.write_vox(&mut buffer), Ok(()));
    let loaded = load_bytes(&buffer).unwrap();
    compare_data(
        loaded,
        placeholder(default_palette(), Vec::new(), placeholder_scenes(), Vec::new()),
    );
}

#[test]
fn what_is_read_can_be_written_and_read_again() {
    let first = load_bytes(&placeholder_bytes(Some(3))).unwrap();
    let mut buffer = Vec::new();
    assert_eq!(first.write_vox(&mut buffer), Ok(()));
    let second = load_bytes(&buffer).unwrap();
    assert_eq!(second.version, first.version);
    assert_eq!(second.models, first.models);
    assert_eq!(second.palette, first.palette);
    assert_eq!(second.scenes, first.scenes);
    assert!(second.materials.is_empty());
    assert!(second.layers.is_empty());
}

#[test]
fn written_bytes_have_the_documented_layout() {
    let data = DotVoxData {
        version: 150,
        models: vec![Model { size: Size { x: 1, y: 2, z: 3 }, voxels: vec![Voxel::new(4, 5, 6, 7)] }],
        palette: vec![Color { r: 9, g: 8, b: 7, a: 6 }],
        materials: vec![],
        scenes: vec![SceneNode::Group { attributes: dict(&[("k", "v")]), children: vec![258] }],
        layers: vec![],
    };
    let mut buffer = Vec::new();
    data.write_vox(&mut buffer).unwrap();
    let expected = file(
        150,
        &[
            size_chunk(1, 2, 3),
            voxel_chunk(&[(4, 5, 6, 8)]),
            chunk(b"nGRP", &group_content(0, &[("k", "v")], &[258]), &[]),
            palette_chunk(&[Color { r: 9, g: 8, b: 7, a: 6 }]),
        ]
        .concat(),
    );
    assert_eq!(buffer, expected);
    assert_eq!(&buffer[..8], b"VOX \x96\0\0\0");
    assert_eq!(&buffer[24 + 12 + 4..24 + 12 + 4 + 4], &[3, 0, 0, 0]);
}

#[test]
fn a_voxel_with_the_index_255_cannot_be_written() {
    let data = DotVoxData {
        version: 150,
        models: vec![
            Model { size: Size { x: 1, y: 1, z: 1 }, voxels: vec![Voxel::new(0, 0, 0, 254)] },
            Model { size: Size { x: 1, y: 1, z: 1 }, voxels: vec![Voxel::new(0, 0, 0, 255)] },
        ],
        palette: vec![],
        materials: vec![],
        scenes: vec![],
        layers: vec![],
    };
    let mut buffer = vec![1, 2, 3];
    assert_eq!(data.write_vox(&mut buffer), Err(WriteError::PaletteIndex));
    assert_eq!(buffer, vec![1, 2, 3]);
}
