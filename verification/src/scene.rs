//! The scene graph: transform, group and shape nodes, which refer to each
//! other and to the models by their positions, and the layers.

use vstd::prelude::*;
use crate::bytes::{le_u32, repeat_parse, spec_parse_u32, spec_validate_count, validate_count};
use crate::dict::{parse_dict, spec_parse_dict, Dict, Entry};
use crate::error::FormatError;
use crate::palette::Color;
use crate::rotation::{valid_rotation_byte, Rotation};
use crate::text::{
    blanks, decimal_i32, decimal_u32, decimal_u8, nom_i32, nom_space1, nom_u32, nom_u8, same_text,
};

verus! {

/// What every node starts with.
#[derive(Debug, PartialEq, Eq)]
pub struct NodeHeader {
    /// The number that the file gives the node.
    pub id: u32,
    /// Attributes of the node.
    pub attributes: Dict,
}

/// A model reference in a shape node.
#[derive(Clone, Debug, PartialEq, Eq)]
pub struct ShapeModel {
    /// The position of the model among the models.
    pub model_id: u32,
    /// Attributes of the model in this shape node.
    pub attributes: Dict,
}

/// A transform node as it is read.
#[derive(Debug, PartialEq, Eq)]
pub struct SceneTransform {
    /// Header.
    pub header: NodeHeader,
    /// The single child, a group or a shape.
    pub child: u32,
    /// Layer ID.
    pub layer_id: u32,
    /// Positional frames.
    pub frames: Vec<Dict>,
}

/// A group node as it is read.
#[derive(Debug, PartialEq, Eq)]
pub struct SceneGroup {
    /// Header.
    pub header: NodeHeader,
    /// The children, transform nodes.
    pub children: Vec<u32>,
}

/// A shape node as it is read.
#[derive(Debug, PartialEq, Eq)]
pub struct SceneShape {
    /// Header.
    pub header: NodeHeader,
    /// One or more models.
    pub models: Vec<ShapeModel>,
}

/// A layer as it is read.
#[derive(Clone, Debug, PartialEq, Eq)]
pub struct RawLayer {
    /// The number that the file gives the layer.
    pub id: u32,
    /// Attributes of the layer.
    pub attributes: Dict,
}

/// A layer, which transform nodes refer to.
#[derive(Clone, Debug, PartialEq, Eq)]
pub struct Layer {
    /// Attributes of the layer.
    pub attributes: Dict,
}

/// A shift in space, by which a frame places what lies under it.
#[derive(Clone, Debug, PartialEq, Eq)]
pub struct Position {
    /// The X coordinate of the shift.
    pub x: i32,
    /// The Y coordinate of the shift.
    pub y: i32,
    /// The Z coordinate of the shift.
    pub z: i32,
}

impl From<(i32, i32, i32)> for Position {
    /// The shift with the coordinates `pos`.
    fn from(pos: (i32, i32, i32)) -> (position: Position) {
        Position { x: pos.0, y: pos.1, z: pos.2 }
    }
}

impl vstd::std_specs::convert::FromSpecImpl<(i32, i32, i32)> for Position {
    open spec fn obeys_from_spec() -> bool {
        true
    }

    open spec fn from_spec(pos: (i32, i32, i32)) -> Position {
        Position { x: pos.0, y: pos.1, z: pos.2 }
    }
}

impl From<Position> for (i32, i32, i32) {
    /// The coordinates of the shift `pos`.
    fn from(pos: Position) -> (coordinates: (i32, i32, i32)) {
        (pos.x, pos.y, pos.z)
    }
}

impl vstd::std_specs::convert::FromSpecImpl<Position> for (i32, i32, i32) {
    open spec fn obeys_from_spec() -> bool {
        true
    }

    open spec fn from_spec(pos: Position) -> (i32, i32, i32) {
        (pos.x, pos.y, pos.z)
    }
}

/// One key frame of a transform node. Its attributes are parsed when they
/// are asked for.
#[derive(Clone, Debug, PartialEq, Eq)]
pub struct Frame {
    attributes: Dict,
}

/// A node of the scene graph.
#[derive(Clone, Debug, PartialEq, Eq)]
pub enum SceneNode {
    /// Transform node (nTRN).
    Transform {
        /// Attributes.
        attributes: Dict,
        /// Transform frames.
        frames: Vec<Frame>,
        /// The position of the child among the nodes.
        child: u32,
        /// Layer ID.
        layer_id: u32,
    },
    /// Group node (nGRP).
    Group {
        /// Attributes.
        attributes: Dict,
        /// The positions of the children among the nodes.
        children: Vec<u32>,
    },
    /// Shape node (nSHP).
    Shape {
        /// Attributes.
        attributes: Dict,
        /// Models.
        models: Vec<ShapeModel>,
    },
}

/// A node header as a mathematical value, for contracts.
pub struct NodeHeaderView {
    pub id: u32,
    pub attributes: Seq<Entry>,
}

/// A model reference as a mathematical value, for contracts.
pub struct ShapeModelView {
    pub model_id: u32,
    pub attributes: Seq<Entry>,
}

/// A transform node, as it is read, as a mathematical value, for contracts.
pub struct SceneTransformView {
    pub header: NodeHeaderView,
    pub child: u32,
    pub layer_id: u32,
    pub frames: Seq<Seq<Entry>>,
}

/// A group node, as it is read, as a mathematical value, for contracts.
pub struct SceneGroupView {
    pub header: NodeHeaderView,
    pub children: Seq<u32>,
}

/// A shape node, as it is read, as a mathematical value, for contracts.
pub struct SceneShapeView {
    pub header: NodeHeaderView,
    pub models: Seq<ShapeModelView>,
}

/// A layer, as it is read, as a mathematical value, for contracts.
pub struct RawLayerView {
    pub id: u32,
    pub attributes: Seq<Entry>,
}

/// A node of the scene graph as a mathematical value, for contracts.
pub enum SceneNodeView {
    Transform { attributes: Seq<Entry>, frames: Seq<Seq<Entry>>, child: u32, layer_id: u32 },
    Group { attributes: Seq<Entry>, children: Seq<u32> },
    Shape { attributes: Seq<Entry>, models: Seq<ShapeModelView> },
}

impl DeepView for NodeHeader {
    type V = NodeHeaderView;

    open spec fn deep_view(&self) -> NodeHeaderView {
        NodeHeaderView { id: self.id, attributes: self.attributes.entries() }
    }
}

impl DeepView for ShapeModel {
    type V = ShapeModelView;

    open spec fn deep_view(&self) -> ShapeModelView {
        ShapeModelView { model_id: self.model_id, attributes: self.attributes.entries() }
    }
}

impl DeepView for SceneTransform {
    type V = SceneTransformView;

    open spec fn deep_view(&self) -> SceneTransformView {
        SceneTransformView {
            header: self.header.deep_view(),
            child: self.child,
            layer_id: self.layer_id,
            frames: self.frames.deep_view(),
        }
    }
}

impl DeepView for SceneGroup {
    type V = SceneGroupView;

    open spec fn deep_view(&self) -> SceneGroupView {
        SceneGroupView { header: self.header.deep_view(), children: self.children@ }
    }
}

impl DeepView for SceneShape {
    type V = SceneShapeView;

    open spec fn deep_view(&self) -> SceneShapeView {
        SceneShapeView { header: self.header.deep_view(), models: self.models.deep_view() }
    }
}

impl DeepView for RawLayer {
    type V = RawLayerView;

    open spec fn deep_view(&self) -> RawLayerView {
        RawLayerView { id: self.id, attributes: self.attributes.entries() }
    }
}

impl DeepView for Layer {
    type V = Seq<Entry>;

    open spec fn deep_view(&self) -> Seq<Entry> {
        self.attributes.entries()
    }
}

impl DeepView for Frame {
    type V = Seq<Entry>;

    open spec fn deep_view(&self) -> Seq<Entry> {
        self.spec_attributes().entries()
    }
}

impl DeepView for SceneNode {
    type V = SceneNodeView;

    open spec fn deep_view(&self) -> SceneNodeView {
        match self {
            SceneNode::Transform { attributes, frames, child, layer_id } => SceneNodeView::Transform {
                attributes: attributes.entries(),
                frames: frames.deep_view(),
                child: *child,
                layer_id: *layer_id,
            },
            SceneNode::Group { attributes, children } => SceneNodeView::Group {
                attributes: attributes.entries(),
                children: children@,
            },
            SceneNode::Shape { attributes, models } => SceneNodeView::Shape {
                attributes: attributes.entries(),
                models: models.deep_view(),
            },
        }
    }
}

/// Reads the start of a node: its number, then its attributes.
#[verifier::opaque]
pub open spec fn spec_parse_node_header(i: Seq<u8>) -> Result<
    (Seq<u8>, NodeHeaderView),
    FormatError,
> {
    match spec_parse_u32(i) {
        Err(e) => Err(e),
        Ok((rest, id)) => match spec_parse_dict(rest) {
            Err(e) => Err(e),
            Ok((rest, attributes)) => Ok((rest, NodeHeaderView { id, attributes })),
        },
    }
}

/// Reads a model reference: the position of the model, then attributes.
#[verifier::opaque]
pub open spec fn spec_parse_shape_model(i: Seq<u8>) -> Result<
    (Seq<u8>, ShapeModelView),
    FormatError,
> {
    match spec_parse_u32(i) {
        Err(e) => Err(e),
        Ok((rest, model_id)) => match spec_parse_dict(rest) {
            Err(e) => Err(e),
            Ok((rest, attributes)) => Ok((rest, ShapeModelView { model_id, attributes })),
        },
    }
}

/// Reads `n` elements with `f`, after checking that so many elements of at
/// least `minimum` bytes each can lie in `i`.
pub open spec fn spec_parse_counted<T>(
    f: spec_fn(Seq<u8>) -> Result<(Seq<u8>, T), FormatError>,
    i: Seq<u8>,
    n: u32,
    minimum: nat,
) -> Result<(Seq<u8>, Seq<T>), FormatError> {
    match spec_validate_count(i.len(), n, minimum) {
        Err(e) => Err(e),
        Ok(count) => repeat_parse(f, i, count, Seq::<T>::empty()),
    }
}

/// Reads what follows the header of a transform node: the child, four
/// bytes that mean nothing, the layer, the number of frames, and so many
/// dictionaries. Gives the child, the layer and the frames.
#[verifier::opaque]
pub open spec fn spec_parse_transform_fields(i: Seq<u8>) -> Result<
    (Seq<u8>, (u32, u32, Seq<Seq<Entry>>)),
    FormatError,
> {
    match spec_parse_u32(i) {
        Err(e) => Err(e),
        Ok((rest, child)) => match spec_parse_u32(rest) {
            Err(e) => Err(e),
            Ok((rest, _)) => match spec_parse_u32(rest) {
                Err(e) => Err(e),
                Ok((rest, layer_id)) => match spec_parse_u32(rest) {
                    Err(e) => Err(e),
                    Ok((rest, frame_count)) => match spec_parse_counted(
                        |b: Seq<u8>| spec_parse_dict(b),
                        rest,
                        frame_count,
                        4,
                    ) {
                        Err(e) => Err(e),
                        Ok((rest, frames)) => Ok((rest, (child, layer_id, frames))),
                    },
                },
            },
        },
    }
}

/// Reads a transform node: the header, then the child, the layer and the
/// frames.
#[verifier::opaque]
pub open spec fn spec_parse_scene_transform(i: Seq<u8>) -> Result<
    (Seq<u8>, SceneTransformView),
    FormatError,
> {
    match spec_parse_node_header(i) {
        Err(e) => Err(e),
        Ok((rest, header)) => match spec_parse_transform_fields(rest) {
            Err(e) => Err(e),
            Ok((rest, fields)) => Ok(
                (
                    rest,
                    SceneTransformView {
                        header,
                        child: fields.0,
                        layer_id: fields.1,
                        frames: fields.2,
                    },
                ),
            ),
        },
    }
}

/// Reads a group node: the header, the number of children, and so many
/// positions of nodes.
#[verifier::opaque]
pub open spec fn spec_parse_scene_group(i: Seq<u8>) -> Result<
    (Seq<u8>, SceneGroupView),
    FormatError,
> {
    match spec_parse_node_header(i) {
        Err(e) => Err(e),
        Ok((rest, header)) => match spec_parse_u32(rest) {
            Err(e) => Err(e),
            Ok((rest, child_count)) => match spec_parse_counted(
                |b: Seq<u8>| spec_parse_u32(b),
                rest,
                child_count,
                4,
            ) {
                Err(e) => Err(e),
                Ok((rest, children)) => Ok((rest, SceneGroupView { header, children })),
            },
        },
    }
}

/// Reads a shape node: the header, the number of models, and so many model
/// references.
#[verifier::opaque]
pub open spec fn spec_parse_scene_shape(i: Seq<u8>) -> Result<
    (Seq<u8>, SceneShapeView),
    FormatError,
> {
    match spec_parse_node_header(i) {
        Err(e) => Err(e),
        Ok((rest, header)) => match spec_parse_u32(rest) {
            Err(e) => Err(e),
            Ok((rest, model_count)) => match spec_parse_counted(
                |b: Seq<u8>| spec_parse_shape_model(b),
                rest,
                model_count,
                8,
            ) {
                Err(e) => Err(e),
                Ok((rest, models)) => Ok((rest, SceneShapeView { header, models })),
            },
        },
    }
}

/// Reads a layer: its number, its attributes, and four bytes that mean
/// nothing.
#[verifier::opaque]
pub open spec fn spec_parse_layer(i: Seq<u8>) -> Result<(Seq<u8>, RawLayerView), FormatError> {
    match spec_parse_u32(i) {
        Err(e) => Err(e),
        Ok((rest, id)) => match spec_parse_dict(rest) {
            Err(e) => Err(e),
            Ok((rest, attributes)) => match spec_parse_u32(rest) {
                Err(e) => Err(e),
                Ok((rest, _)) => Ok((rest, RawLayerView { id, attributes })),
            },
        },
    }
}

/// Reads the start of a node from the front of `i`.
pub fn parse_node_header(i: &[u8]) -> (r: Result<(&[u8], NodeHeader), FormatError>)
    ensures
        match r {
            Ok((rest, header)) => spec_parse_node_header(i@) == Ok::<
                (Seq<u8>, NodeHeaderView),
                FormatError,
            >((rest@, header.deep_view())),
            Err(e) => spec_parse_node_header(i@) == Err::<(Seq<u8>, NodeHeaderView), FormatError>(
                e,
            ),
        },
{
    proof {
        reveal(spec_parse_node_header);
    }
    let (rest, id) = le_u32(i)?;
    let (rest, attributes) = parse_dict(rest)?;
    Ok((rest, NodeHeader { id, attributes }))
}

/// Reads a model reference from the front of `i`.
pub fn parse_scene_shape_model(i: &[u8]) -> (r: Result<(&[u8], ShapeModel), FormatError>)
    ensures
        match r {
            Ok((rest, model)) => spec_parse_shape_model(i@) == Ok::<
                (Seq<u8>, ShapeModelView),
                FormatError,
            >((rest@, model.deep_view())),
            Err(e) => spec_parse_shape_model(i@) == Err::<(Seq<u8>, ShapeModelView), FormatError>(
                e,
            ),
        },
{
    proof {
        reveal(spec_parse_shape_model);
    }
    let (rest, model_id) = le_u32(i)?;
    let (rest, attributes) = parse_dict(rest)?;
    Ok((rest, ShapeModel { model_id, attributes }))
}

/// Reads `n` dictionaries from the front of `i`.
fn parse_frames(i: &[u8], n: u32) -> (r: Result<(&[u8], Vec<Dict>), FormatError>)
    ensures
        match r {
            Ok((rest, frames)) => spec_parse_counted(|b: Seq<u8>| spec_parse_dict(b), i@, n, 4)
                == Ok::<(Seq<u8>, Seq<Seq<Entry>>), FormatError>((rest@, frames.deep_view()))
                && frames@.len() <= i@.len() / 4,
            Err(e) => spec_parse_counted(|b: Seq<u8>| spec_parse_dict(b), i@, n, 4) == Err::<
                (Seq<u8>, Seq<Seq<Entry>>),
                FormatError,
            >(e),
        },
{
    let count = validate_count(i, n, 4)?;
    let mut frames: Vec<Dict> = Vec::with_capacity(count);
    assert(frames.deep_view() =~= Seq::<Seq<Entry>>::empty());
    let mut rest: &[u8] = i;
    let mut k: usize = 0;
    while k < count
        invariant
            k <= count,
            frames@.len() == k,
            spec_validate_count(i@.len(), n, 4) == Ok::<nat, FormatError>(count as nat),
            repeat_parse(
                |b: Seq<u8>| spec_parse_dict(b),
                i@,
                count as nat,
                Seq::<Seq<Entry>>::empty(),
            ) == repeat_parse(
                |b: Seq<u8>| spec_parse_dict(b),
                rest@,
                (count - k) as nat,
                frames.deep_view(),
            ),
        decreases count - k,
    {
        let (after, frame) = parse_dict(rest)?;
        let ghost before = frames.deep_view();
        frames.push(frame);
        assert(frames.deep_view() =~= before.push(frame.entries()));
        rest = after;
        k = k + 1;
    }
    Ok((rest, frames))
}

/// Reads `n` positions of nodes from the front of `i`.
fn parse_children(i: &[u8], n: u32) -> (r: Result<(&[u8], Vec<u32>), FormatError>)
    ensures
        match r {
            Ok((rest, children)) => spec_parse_counted(|b: Seq<u8>| spec_parse_u32(b), i@, n, 4)
                == Ok::<(Seq<u8>, Seq<u32>), FormatError>((rest@, children@)) && children@.len()
                <= i@.len() / 4,
            Err(e) => spec_parse_counted(|b: Seq<u8>| spec_parse_u32(b), i@, n, 4) == Err::<
                (Seq<u8>, Seq<u32>),
                FormatError,
            >(e),
        },
{
    let count = validate_count(i, n, 4)?;
    let mut children: Vec<u32> = Vec::with_capacity(count);
    let mut rest: &[u8] = i;
    let mut k: usize = 0;
    while k < count
        invariant
            k <= count,
            children@.len() == k,
            spec_validate_count(i@.len(), n, 4) == Ok::<nat, FormatError>(count as nat),
            repeat_parse(|b: Seq<u8>| spec_parse_u32(b), i@, count as nat, Seq::<u32>::empty())
                == repeat_parse(
                |b: Seq<u8>| spec_parse_u32(b),
                rest@,
                (count - k) as nat,
                children@,
            ),
        decreases count - k,
    {
        let (after, child) = le_u32(rest)?;
        children.push(child);
        rest = after;
        k = k + 1;
    }
    Ok((rest, children))
}

/// Reads `n` model references from the front of `i`.
fn parse_shape_models(i: &[u8], n: u32) -> (r: Result<(&[u8], Vec<ShapeModel>), FormatError>)
    ensures
        match r {
            Ok((rest, models)) => spec_parse_counted(
                |b: Seq<u8>| spec_parse_shape_model(b),
                i@,
                n,
                8,
            ) == Ok::<(Seq<u8>, Seq<ShapeModelView>), FormatError>((rest@, models.deep_view()))
                && models@.len() <= i@.len() / 8,
            Err(e) => spec_parse_counted(|b: Seq<u8>| spec_parse_shape_model(b), i@, n, 8) == Err::<
                (Seq<u8>, Seq<ShapeModelView>),
                FormatError,
            >(e),
        },
{
    let count = validate_count(i, n, 8)?;
    let mut models: Vec<ShapeModel> = Vec::with_capacity(count);
    assert(models.deep_view() =~= Seq::<ShapeModelView>::empty());
    let mut rest: &[u8] = i;
    let mut k: usize = 0;
    while k < count
        invariant
            k <= count,
            models@.len() == k,
            spec_validate_count(i@.len(), n, 8) == Ok::<nat, FormatError>(count as nat),
            repeat_parse(
                |b: Seq<u8>| spec_parse_shape_model(b),
                i@,
                count as nat,
                Seq::<ShapeModelView>::empty(),
            ) == repeat_parse(
                |b: Seq<u8>| spec_parse_shape_model(b),
                rest@,
                (count - k) as nat,
                models.deep_view(),
            ),
        decreases count - k,
    {
        let (after, model) = parse_scene_shape_model(rest)?;
        let ghost before = models.deep_view();
        models.push(model);
        assert(models.deep_view() =~= before.push(model.deep_view()));
        rest = after;
        k = k + 1;
    }
    Ok((rest, models))
}

/// Reads a transform node from the front of `i`.
pub fn parse_scene_transform(i: &[u8]) -> (r: Result<(&[u8], SceneTransform), FormatError>)
    ensures
        match r {
            Ok((rest, node)) => spec_parse_scene_transform(i@) == Ok::<
                (Seq<u8>, SceneTransformView),
                FormatError,
            >((rest@, node.deep_view())),
            Err(e) => spec_parse_scene_transform(i@) == Err::<
                (Seq<u8>, SceneTransformView),
                FormatError,
            >(e),
        },
{
    proof {
        reveal(spec_parse_scene_transform);
        reveal(spec_parse_transform_fields);
    }
    let (rest, header) = parse_node_header(i)?;
    let (rest, child) = le_u32(rest)?;
    let (rest, _ignored) = le_u32(rest)?;
    let (rest, layer_id) = le_u32(rest)?;
    let (rest, frame_count) = le_u32(rest)?;
    let (rest, frames) = parse_frames(rest, frame_count)?;
    Ok((rest, SceneTransform { header, child, layer_id, frames }))
}

/// Reads a group node from the front of `i`.
pub fn parse_scene_group(i: &[u8]) -> (r: Result<(&[u8], SceneGroup), FormatError>)
    ensures
        match r {
            Ok((rest, node)) => spec_parse_scene_group(i@) == Ok::<
                (Seq<u8>, SceneGroupView),
                FormatError,
            >((rest@, node.deep_view())),
            Err(e) => spec_parse_scene_group(i@) == Err::<(Seq<u8>, SceneGroupView), FormatError>(
                e,
            ),
        },
{
    proof {
        reveal(spec_parse_scene_group);
    }
    let (rest, header) = parse_node_header(i)?;
    let (rest, child_count) = le_u32(rest)?;
    let (rest, children) = parse_children(rest, child_count)?;
    Ok((rest, SceneGroup { header, children }))
}

/// Reads a shape node from the front of `i`.
pub fn parse_scene_shape(i: &[u8]) -> (r: Result<(&[u8], SceneShape), FormatError>)
    ensures
        match r {
            Ok((rest, node)) => spec_parse_scene_shape(i@) == Ok::<
                (Seq<u8>, SceneShapeView),
                FormatError,
            >((rest@, node.deep_view())),
            Err(e) => spec_parse_scene_shape(i@) == Err::<(Seq<u8>, SceneShapeView), FormatError>(
                e,
            ),
        },
{
    proof {
        reveal(spec_parse_scene_shape);
    }
    let (rest, header) = parse_node_header(i)?;
    let (rest, model_count) = le_u32(rest)?;
    let (rest, models) = parse_shape_models(rest, model_count)?;
    Ok((rest, SceneShape { header, models }))
}

/// Reads a layer from the front of `i`.
pub fn parse_layer(i: &[u8]) -> (r: Result<(&[u8], RawLayer), FormatError>)
    ensures
        match r {
            Ok((rest, layer)) => spec_parse_layer(i@) == Ok::<(Seq<u8>, RawLayerView), FormatError>(
                (rest@, layer.deep_view()),
            ),
            Err(e) => spec_parse_layer(i@) == Err::<(Seq<u8>, RawLayerView), FormatError>(e),
        },
{
    proof {
        reveal(spec_parse_layer);
    }
    let (rest, id) = le_u32(i)?;
    let (rest, attributes) = parse_dict(rest)?;
    let (rest, _ignored) = le_u32(rest)?;
    Ok((rest, RawLayer { id, attributes }))
}

/// Three numbers of type `T` that a text starts with, with blanks between
/// them, as the three readers of numbers and the reader of blanks find
/// them. What follows the third number is not looked at.
pub open spec fn spec_three<T>(
    text: Seq<char>,
    number: spec_fn(Seq<char>) -> Option<(Seq<char>, T)>,
) -> Option<(T, T, T)> {
    match number(text) {
        None => None,
        Some((rest, first)) => match nom_space1(rest) {
            None => None,
            Some((rest, _)) => match number(rest) {
                None => None,
                Some((rest, second)) => match nom_space1(rest) {
                    None => None,
                    Some((rest, _)) => match number(rest) {
                        None => None,
                        Some((_, third)) => Some((first, second, third)),
                    },
                },
            },
        },
    }
}

/// The shift that a text holds: three signed numbers with blanks
/// between them.
pub open spec fn spec_position_text(text: Seq<char>) -> Option<Position> {
    match spec_three(text, |t: Seq<char>| nom_i32(t)) {
        None => None,
        Some(pos) => Some(Position { x: pos.0, y: pos.1, z: pos.2 }),
    }
}

/// The colour that a text holds: three numbers below 256 with blanks
/// between them, for red, green and blue. The opacity is 0.
pub open spec fn spec_color_text(text: Seq<char>) -> Option<Color> {
    match spec_three(text, |t: Seq<char>| nom_u8(t)) {
        None => None,
        Some(rgb) => Some(Color { r: rgb.0, g: rgb.1, b: rgb.2, a: 0 }),
    }
}

/// The rotation byte that a text holds: a number below 256 that encodes a
/// rotation.
pub open spec fn spec_orientation_text(text: Seq<char>) -> Option<u8> {
    match nom_u8(text) {
        None => None,
        Some((_, byte)) => if valid_rotation_byte(byte) {
            Some(byte)
        } else {
            None
        },
    }
}

/// The index that a text holds: an unsigned number.
pub open spec fn spec_index_text(text: Seq<char>) -> Option<u32> {
    match nom_u32(text) {
        None => None,
        Some((_, index)) => Some(index),
    }
}

/// What `parse` makes of the value that `entries` holds under `key`, and
/// nothing where there is no such value.
pub open spec fn spec_attribute<T>(
    entries: Seq<Entry>,
    key: Seq<char>,
    parse: spec_fn(Seq<char>) -> Option<T>,
) -> Option<T> {
    match crate::dict::entries_get(entries, key) {
        None => None,
        Some(text) => parse(text),
    }
}

/// Reads a shift in a text: three signed numbers with blanks between
/// them.
pub fn parse_position(text: &str) -> (position: Option<Position>)
    ensures
        position == spec_position_text(text@),
{
    let (rest, x) = match decimal_i32(text) {
        Some(read) => read,
        None => {
            return None;
        },
    };
    let (rest, _) = match blanks(rest) {
        Some(read) => read,
        None => {
            return None;
        },
    };
    let (rest, y) = match decimal_i32(rest) {
        Some(read) => read,
        None => {
            return None;
        },
    };
    let (rest, _) = match blanks(rest) {
        Some(read) => read,
        None => {
            return None;
        },
    };
    match decimal_i32(rest) {
        Some((_, z)) => Some(Position::from((x, y, z))),
        None => None,
    }
}

/// Reads the colour of a layer from a text: red, green and blue, with
/// blanks between them.
pub fn parse_color_text(text: &str) -> (color: Option<Color>)
    ensures
        color == spec_color_text(text@),
{
    let (rest, r) = match decimal_u8(text) {
        Some(read) => read,
        None => {
            return None;
        },
    };
    let (rest, _) = match blanks(rest) {
        Some(read) => read,
        None => {
            return None;
        },
    };
    let (rest, g) = match decimal_u8(rest) {
        Some(read) => read,
        None => {
            return None;
        },
    };
    let (rest, _) = match blanks(rest) {
        Some(read) => read,
        None => {
            return None;
        },
    };
    match decimal_u8(rest) {
        Some((_, b)) => Some(Color { r, g, b, a: 0 }),
        None => None,
    }
}

/// Reads a rotation from a text: a number below 256 that encodes one.
pub fn parse_orientation(text: &str) -> (rotation: Option<Rotation>)
    ensures
        match rotation {
            Some(r) => spec_orientation_text(text@) == Some(r.byte()),
            None => spec_orientation_text(text@) is None,
        },
{
    match decimal_u8(text) {
        Some((_, byte_rotation)) => match Rotation::from_byte(byte_rotation) {
            Ok(rotation) => Some(rotation),
            Err(_) => None,
        },
        None => None,
    }
}

/// Reads an index from a text: an unsigned number.
pub fn parse_index(text: &str) -> (index: Option<u32>)
    ensures
        index == spec_index_text(text@),
{
    match decimal_u32(text) {
        Some((_, index)) => Some(index),
        None => None,
    }
}

impl ShapeModel {
    /// The key frame that the model is assigned to: the `_f` attribute.
    pub open spec fn spec_frame_index(&self) -> Option<u32> {
        spec_attribute(self.attributes.entries(), "_f"@, |t: Seq<char>| spec_index_text(t))
    }

    /// The key frame that the model is assigned to in its shape node, where
    /// the `_f` attribute is there and holds a number.
    pub fn frame_index(&self) -> (index: Option<u32>)
        ensures
            index == self.spec_frame_index(),
    {
        match self.attributes.get("_f") {
            Some(input) => parse_index(input.as_str()),
            None => None,
        }
    }
}

impl Layer {
    /// The name of the layer: the `_name` attribute.
    pub fn name(&self) -> (name: Option<String>)
        ensures
            match name {
                Some(text) => self.attributes.spec_get("_name"@) == Some(text@),
                None => self.attributes.spec_get("_name"@) is None,
            },
    {
        match self.attributes.get("_name") {
            Some(text) => Some(text.clone()),
            None => None,
        }
    }

    /// Whether the layer is hidden: the `_hidden` attribute.
    pub open spec fn spec_hidden(&self) -> bool {
        self.attributes.spec_get("_hidden"@) == Some("1"@)
    }

    /// Whether the layer is hidden: whether the `_hidden` attribute is `1`.
    /// A layer is visible where nothing is said.
    pub fn hidden(&self) -> (hidden: bool)
        ensures
            hidden == self.spec_hidden(),
    {
        match self.attributes.get("_hidden") {
            Some(x) => same_text(x.as_str(), "1"),
            None => false,
        }
    }

    /// The colour of the layer: the `_color` attribute.
    pub open spec fn spec_color(&self) -> Option<Color> {
        spec_attribute(self.attributes.entries(), "_color"@, |t: Seq<char>| spec_color_text(t))
    }

    /// The colour of the layer, where the `_color` attribute is there and
    /// holds three numbers.
    pub fn color(&self) -> (color: Option<Color>)
        ensures
            color == self.spec_color(),
    {
        match self.attributes.get("_color") {
            Some(x) => parse_color_text(x.as_str()),
            None => None,
        }
    }
}

impl Frame {
    /// The rotation byte of the frame: the `_r` attribute.
    pub open spec fn spec_orientation(&self) -> Option<u8> {
        spec_attribute(
            self.spec_attributes().entries(),
            "_r"@,
            |t: Seq<char>| spec_orientation_text(t),
        )
    }

    /// The shift of the frame: the `_t` attribute.
    pub open spec fn spec_position(&self) -> Option<Position> {
        spec_attribute(
            self.spec_attributes().entries(),
            "_t"@,
            |t: Seq<char>| spec_position_text(t),
        )
    }

    /// The number of the frame: the `_f` attribute.
    pub open spec fn spec_frame_index(&self) -> Option<u32> {
        spec_attribute(self.spec_attributes().entries(), "_f"@, |t: Seq<char>| spec_index_text(t))
    }

    /// The orientation of the model at this frame, where the `_r` attribute
    /// is there and holds the byte of a rotation.
    pub fn orientation(&self) -> (rotation: Option<Rotation>)
        ensures
            match rotation {
                Some(r) => self.spec_orientation() == Some(r.byte()),
                None => self.spec_orientation() is None,
            },
    {
        match self.attributes.get("_r") {
            Some(value) => parse_orientation(value.as_str()),
            None => None,
        }
    }

    /// The position at which this frame begins, where the `_t` attribute is
    /// there and holds three numbers.
    pub fn position(&self) -> (position: Option<Position>)
        ensures
            position == self.spec_position(),
    {
        match self.attributes.get("_t") {
            Some(value) => parse_position(value.as_str()),
            None => None,
        }
    }

    /// The frame number of this key frame, where the `_f` attribute is
    /// there and holds a number.
    pub fn frame_index(&self) -> (index: Option<u32>)
        ensures
            index == self.spec_frame_index(),
    {
        match self.attributes.get("_f") {
            Some(value) => parse_index(value.as_str()),
            None => None,
        }
    }

    /// The attributes of the frame.
    pub closed spec fn spec_attributes(&self) -> Dict {
        self.attributes
    }

    /// Builds a frame from its attributes. Nothing is parsed yet.
    pub fn new(attributes: Dict) -> (frame: Frame)
        ensures
            frame.spec_attributes() == attributes,
    {
        Frame { attributes }
    }

    /// The attributes of the frame.
    pub fn attributes(&self) -> (attributes: &Dict)
        ensures
            *attributes == self.spec_attributes(),
    {
        &self.attributes
    }
}

impl Default for Frame {
    /// A frame without attributes.
    fn default() -> (frame: Frame)
        ensures
            frame.spec_attributes().entries() == Seq::<Entry>::empty(),
    {
        Frame { attributes: Dict::new() }
    }
}

} // verus!
