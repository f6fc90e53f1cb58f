use dot_vox::scene::{parse_color_text, parse_index, parse_orientation, parse_position};
use dot_vox::{
    Color, Dict, DotVoxData, Frame, Layer, Model, Placement, Position, Rotation, SceneError,
    SceneNode, ShapeModel, Size, Voxel,
};

fn dict(entries: &[(&str, &str)]) -> Dict {
    let mut map = Dict::new();
    for (key, value) in entries {
        map.insert(key.to_string(), value.to_string());
    }
    map
}

fn frame(entries: &[(&str, &str)]) -> Frame {
    Frame::new(dict(entries))
}

fn transform(frames: Vec<Frame>, child: u32) -> SceneNode {
    SceneNode::Transform { attributes: Dict::new(), frames, child, layer_id: 0 }
}

fn group(children: Vec<u32>) -> SceneNode {
    SceneNode::Group { attributes: Dict::new(), children }
}

fn shape(models: Vec<u32>) -> SceneNode {
    SceneNode::Shape {
        attributes: Dict::new(),
        models: models
            .into_iter()
            .map(|model_id| ShapeModel { model_id, attributes: Dict::new() })
            .collect(),
    }
}

fn scene(model_count: usize, scenes: Vec<SceneNode>) -> DotVoxData {
    DotVoxData {
        version: 150,
        models: (0..model_count)
            .map(|_| Model { size: Size { x: 2, y: 2, z: 2 }, voxels: vec![Voxel::new(0, 0, 0, 0)] })
            .collect(),
        palette: vec![],
        materials: vec![],
        scenes,
        layers: vec![],
    }
}

fn placed(placements: &[Placement]) -> Vec<(u32, (i64, i64, i64), u8)> {
    placements.iter().map(|p| (p.model_id, p.position, p.rotation.to_byte())).collect()
}

#[test]
fn canonical_scene() {
    let data = scene(
        1,
        vec![
            SceneNode::Transform {
                attributes: Dict::new(),
                frames: vec![Frame::default()],
                child: 1,
                layer_id: 4294967295,
            },
            group(vec![2]),
            transform(vec![frame(&[("_t", "0 0 1")])], 3),
            shape(vec![0]),
        ],
    );
    let placements = data.traverse().unwrap();
    assert_eq!(placements.len(), 1);
    let placement = placements[0];
    assert_eq!(placement.model_id, 0);
    assert_eq!(placement.position, (0, 0, 1));
    assert!(placement.rotation == Rotation::identity());
    // The position is that of the middle of the model; the corner at which
    // the voxel (0, 0, 0) lies is half the turned size away from it.
    let size = data.models[placement.model_id as usize].size;
    let turned = placement.rotation.apply_to_size(size.x, size.y, size.z);
    assert_eq!(turned, (2, 2, 2));
    let corner = (
        placement.position.0 as f64 - turned.0 as f64 / 2.0,
        placement.position.1 as f64 - turned.1 as f64 / 2.0,
        placement.position.2 as f64 - turned.2 as f64 / 2.0,
    );
    assert_eq!(corner, (-1.0, -1.0, 0.0));
}

#[test]
fn shifts_are_turned_by_the_rotations_above_them() {
    // Row 0 takes y, row 1 takes z negated, row 2 takes x negated.
    let byte: u8 = (1 << 0) | (2 << 2) | (1 << 5) | (1 << 6);
    let turn = byte.to_string();
    let data = scene(
        2,
        vec![
            transform(vec![frame(&[("_t", "100 200 300"), ("_r", turn.as_str())])], 1),
            transform(vec![frame(&[("_t", "1 2 3")]), frame(&[("_t", "9 9 9")])], 2),
            transform(vec![frame(&[("_r", turn.as_str())])], 3),
            shape(vec![1, 0]),
        ],
    );
    let rotation = Rotation::from_byte(byte).unwrap();
    let twice = rotation * rotation;
    assert_eq!(
        placed(&data.traverse().unwrap()),
        vec![(1, (102, 197, 299), twice.to_byte()), (0, (102, 197, 299), twice.to_byte())]
    );
}

#[test]
fn attributes_that_cannot_be_read_change_nothing() {
    let data = scene(
        1,
        vec![
            transform(vec![frame(&[("_t", "5 6 7"), ("_r", "0")])], 1),
            transform(vec![frame(&[("_t", "1 2"), ("_r", "4")])], 2),
            shape(vec![0]),
        ],
    );
    assert_eq!(placed(&data.traverse().unwrap()), vec![(0, (5, 6, 7), 4)]);
}

#[test]
fn groups_fan_out_and_shared_nodes_are_visited_for_each_path() {
    let data = scene(
        3,
        vec![
            transform(vec![frame(&[("_t", "1 0 0")])], 1),
            group(vec![2, 3, 5, 2]),
            transform(vec![frame(&[("_t", "0 1 0")])], 4),
            transform(vec![frame(&[("_t", "0 0 1")])], 4),
            shape(vec![2, 0]),
            group(vec![]),
        ],
    );
    assert_eq!(
        placed(&data.traverse().unwrap()),
        vec![
            (2, (1, 1, 0), 4),
            (0, (1, 1, 0), 4),
            (2, (1, 0, 1), 4),
            (0, (1, 0, 1), 4),
            (2, (1, 1, 0), 4),
            (0, (1, 1, 0), 4),
        ]
    );
}

#[test]
fn root_must_be_a_transform_node() {
    assert_eq!(scene(1, vec![]).traverse().err(), Some(SceneError::RootNotTransform));
    assert_eq!(scene(1, vec![group(vec![])]).traverse().err(), Some(SceneError::RootNotTransform));
    assert_eq!(scene(1, vec![shape(vec![0])]).traverse().err(), Some(SceneError::RootNotTransform));
}

#[test]
fn references_out_of_range_are_errors() {
    let missing_node = scene(1, vec![transform(vec![Frame::default()], 1)]);
    assert_eq!(missing_node.traverse().err(), Some(SceneError::NodeOutOfRange));
    let missing_child =
        scene(1, vec![transform(vec![Frame::default()], 1), group(vec![2, 7]), shape(vec![0])]);
    assert_eq!(missing_child.traverse().err(), Some(SceneError::NodeOutOfRange));
    let missing_model = scene(1, vec![transform(vec![Frame::default()], 1), shape(vec![0, 1])]);
    assert_eq!(missing_model.traverse().err(), Some(SceneError::ModelOutOfRange));
    let no_models = scene(0, vec![transform(vec![Frame::default()], 1), shape(vec![0])]);
    assert_eq!(no_models.traverse().err(), Some(SceneError::ModelOutOfRange));
}

#[test]
fn a_transform_node_needs_a_frame() {
    let data = scene(1, vec![transform(vec![], 1), shape(vec![0])]);
    assert_eq!(data.traverse().err(), Some(SceneError::NoFrame));
}

#[test]
fn cycles_end_the_walk() {
    let own_child = scene(1, vec![transform(vec![Frame::default()], 0)]);
    assert_eq!(own_child.traverse().err(), Some(SceneError::Cycle));
    let through_a_group =
        scene(1, vec![transform(vec![Frame::default()], 1), group(vec![2, 0]), shape(vec![0])]);
    assert_eq!(through_a_group.traverse().err(), Some(SceneError::Cycle));
    // The longest path without a cycle takes every node once.
    let chain = scene(
        1,
        vec![
            transform(vec![Frame::default()], 1),
            transform(vec![Frame::default()], 2),
            group(vec![3]),
            shape(vec![0]),
        ],
    );
    assert_eq!(chain.traverse().unwrap().len(), 1);
}

#[test]
fn long_chains_and_wide_groups_are_walked_without_recursion() {
    let length: u32 = 200_000;
    let mut nodes: Vec<SceneNode> =
        (0..length).map(|k| transform(vec![frame(&[("_t", "1 -1 0")])], k + 1)).collect();
    nodes.push(group(vec![length + 1; 50_000]));
    nodes.push(shape(vec![0]));
    let placements = scene(1, nodes).traverse().unwrap();
    assert_eq!(placements.len(), 50_000);
    assert_eq!(placements[49_999].position, (length as i64, -(length as i64), 0));
}

#[test]
fn frame_attributes_are_parsed_when_asked_for() {
    let full = frame(&[("_t", "-12 +7 0"), ("_r", "40"), ("_f", "15")]);
    assert_eq!(full.position(), Some(Position { x: -12, y: 7, z: 0 }));
    assert_eq!(full.orientation().map(|r| r.to_byte()), Some(40));
    assert_eq!(full.frame_index(), Some(15));
    assert_eq!(full.attributes().get("_f"), Some(&"15".to_owned()));
    let empty = Frame::default();
    assert_eq!(empty.position(), None);
    assert!(empty.orientation().is_none());
    assert_eq!(empty.frame_index(), None);
    let malformed = frame(&[("_t", "1,2,3"), ("_r", "5"), ("_f", "-1")]);
    assert_eq!(malformed.position(), None);
    assert!(malformed.orientation().is_none());
    assert_eq!(malformed.frame_index(), None);
}

#[test]
fn positions_are_three_numbers_with_blanks_between_them() {
    assert_eq!(parse_position("0 0 1"), Some(Position { x: 0, y: 0, z: 1 }));
    assert_eq!(parse_position("1 \t 2   3 and more"), Some(Position { x: 1, y: 2, z: 3 }));
    assert_eq!(
        parse_position("-2147483648 2147483647 007"),
        Some(Position { x: i32::MIN, y: i32::MAX, z: 7 })
    );
    assert_eq!(parse_position("2147483648 0 0"), None);
    assert_eq!(parse_position("-2147483649 0 0"), None);
    assert_eq!(parse_position("1 2"), None);
    assert_eq!(parse_position("1 2 "), None);
    assert_eq!(parse_position(" 1 2 3"), None);
    assert_eq!(parse_position("1\n2\n3"), None);
    assert_eq!(parse_position(""), None);
    assert_eq!(Position::from((4, 5, 6)), Position { x: 4, y: 5, z: 6 });
    let coordinates: (i32, i32, i32) = Position { x: 4, y: 5, z: 6 }.into();
    assert_eq!(coordinates, (4, 5, 6));
}

#[test]
fn orientations_are_bytes_that_encode_a_rotation() {
    assert_eq!(parse_orientation("4").map(|r| r.to_byte()), Some(4));
    assert_eq!(parse_orientation("105 ").map(|r| r.to_byte()), Some(105));
    assert!(parse_orientation("0").is_none());
    assert!(parse_orientation("3").is_none());
    assert!(parse_orientation("256").is_none());
    assert!(parse_orientation("-4").is_none());
    assert!(parse_orientation("x").is_none());
}

#[test]
fn indices_are_unsigned_numbers() {
    assert_eq!(parse_index("0"), Some(0));
    assert_eq!(parse_index("4294967295"), Some(u32::MAX));
    assert_eq!(parse_index("4294967296"), None);
    assert_eq!(parse_index("12abc"), Some(12));
    assert_eq!(parse_index("+1"), None);
    assert_eq!(parse_index(""), None);
}

#[test]
fn layer_attributes() {
    let layer = Layer { attributes: dict(&[("_name", "walls"), ("_hidden", "1"), ("_color", "255 0 128")]) };
    assert_eq!(layer.name(), Some("walls".to_owned()));
    assert!(layer.hidden());
    assert_eq!(layer.color(), Some(Color { r: 255, g: 0, b: 128, a: 0 }));
    let plain = Layer { attributes: dict(&[("_hidden", "0"), ("_color", "255 0 256")]) };
    assert_eq!(plain.name(), None);
    assert!(!plain.hidden());
    assert_eq!(plain.color(), None);
    let bare = Layer { attributes: Dict::new() };
    assert!(!bare.hidden());
    assert_eq!(bare.color(), None);
    assert_eq!(parse_color_text("1 2 3"), Some(Color { r: 1, g: 2, b: 3, a: 0 }));
    assert_eq!(parse_color_text("1 2"), None);
}

#[test]
fn shape_model_frame_index() {
    let model = ShapeModel { model_id: 3, attributes: dict(&[("_f", "21")]) };
    assert_eq!(model.frame_index(), Some(21));
    let other = ShapeModel { model_id: 3, attributes: dict(&[("_f", "soon")]) };
    assert_eq!(other.frame_index(), None);
    let bare = ShapeModel { model_id: 3, attributes: Dict::new() };
    assert_eq!(bare.frame_index(), None);
}
