//! The scene graph and the layers of a small file, for examples and tests:
//! a root that leads through a group to one transform node, which lifts one
//! model by one voxel, and eight layers that are named by their numbers.

use vstd::prelude::*;
use vstd::string::*;
use crate::dict::{lemma_entries_insert, Dict, Entry};
use crate::scene::{Frame, Layer, SceneNode, SceneNodeView, ShapeModel, ShapeModelView};

verus! {

/// The dictionary with one entry.
pub open spec fn single_entry(key: Seq<char>, value: Seq<char>) -> Seq<Entry> {
    seq![(key, value)]
}

/// The nodes of the scene: a transform node, a group node, a transform node
/// with the shift `0 0 1`, and a shape node with the first model.
pub open spec fn spec_scenes() -> Seq<SceneNodeView> {
    seq![
        SceneNodeView::Transform {
            attributes: Seq::empty(),
            frames: seq![Seq::<Entry>::empty()],
            child: 1,
            layer_id: 4294967295,
        },
        SceneNodeView::Group { attributes: Seq::empty(), children: seq![2u32] },
        SceneNodeView::Transform {
            attributes: Seq::empty(),
            frames: seq![single_entry("_t"@, "0 0 1"@)],
            child: 3,
            layer_id: 0,
        },
        SceneNodeView::Shape {
            attributes: Seq::empty(),
            models: seq![ShapeModelView { model_id: 0, attributes: Seq::empty() }],
        },
    ]
}

/// The name of the layer `k`: its number in decimal.
pub open spec fn layer_name(k: int) -> Seq<char> {
    if k == 0 {
        "0"@
    } else if k == 1 {
        "1"@
    } else if k == 2 {
        "2"@
    } else if k == 3 {
        "3"@
    } else if k == 4 {
        "4"@
    } else if k == 5 {
        "5"@
    } else if k == 6 {
        "6"@
    } else {
        "7"@
    }
}

/// The eight layers, each with its name under `_name`.
pub open spec fn spec_layers() -> Seq<Seq<Entry>> {
    Seq::new(8, |k: int| single_entry("_name"@, layer_name(k)))
}

/// A dictionary with one entry.
fn single(key: &str, value: &str) -> (d: Dict)
    ensures
        d.entries() == single_entry(key@, value@),
{
    let mut d = Dict::new();
    proof {
        lemma_entries_insert(Seq::<Entry>::empty(), key@, value@);
    }
    d.insert(key.to_owned(), value.to_owned());
    assert(d.entries() =~= single_entry(key@, value@));
    d
}

/// The nodes of the scene.
pub fn scenes() -> (nodes: Vec<SceneNode>)
    ensures
        nodes.deep_view() == spec_scenes(),
{
    let mut root_frames: Vec<Frame> = Vec::new();
    root_frames.push(Frame::default());
    assert(root_frames.deep_view() =~= seq![Seq::<Entry>::empty()]);
    let mut children: Vec<u32> = Vec::new();
    children.push(2);
    assert(children@ =~= seq![2u32]);
    let mut frames: Vec<Frame> = Vec::new();
    frames.push(Frame::new(single("_t", "0 0 1")));
    assert(frames.deep_view() =~= seq![single_entry("_t"@, "0 0 1"@)]);
    let mut models: Vec<ShapeModel> = Vec::new();
    models.push(ShapeModel { model_id: 0, attributes: Dict::new() });
    assert(models.deep_view() =~= seq![
        ShapeModelView { model_id: 0, attributes: Seq::<Entry>::empty() },
    ]);
    let mut nodes: Vec<SceneNode> = Vec::new();
    nodes.push(
        SceneNode::Transform {
            attributes: Dict::new(),
            frames: root_frames,
            child: 1,
            layer_id: 4294967295,
        },
    );
    nodes.push(SceneNode::Group { attributes: Dict::new(), children });
    nodes.push(SceneNode::Transform { attributes: Dict::new(), frames, child: 3, layer_id: 0 });
    nodes.push(SceneNode::Shape { attributes: Dict::new(), models });
    assert(nodes.deep_view() =~= spec_scenes());
    nodes
}

/// The text of a number below 8.
fn digit(k: usize) -> (text: &'static str)
    requires
        k < 8,
    ensures
        text@ == layer_name(k as int),
{
    if k == 0 {
        "0"
    } else if k == 1 {
        "1"
    } else if k == 2 {
        "2"
    } else if k == 3 {
        "3"
    } else if k == 4 {
        "4"
    } else if k == 5 {
        "5"
    } else if k == 6 {
        "6"
    } else {
        "7"
    }
}

/// The eight layers.
pub fn layers() -> (layers: Vec<Layer>)
    ensures
        layers.deep_view() == spec_layers(),
{
    let mut layers: Vec<Layer> = Vec::new();
    let mut k: usize = 0;
    while k < 8
        invariant
            k <= 8,
            layers@.len() == k,
            forall|j: int|
                0 <= j < k ==> #[trigger] layers.deep_view()[j] == single_entry(
                    "_name"@,
                    layer_name(j),
                ),
        decreases 8 - k,
    {
        let ghost before = layers.deep_view();
        let layer = Layer { attributes: single("_name", digit(k)) };
        layers.push(layer);
        assert forall|j: int| 0 <= j < k + 1 implies #[trigger] layers.deep_view()[j]
            == single_entry("_name"@, layer_name(j)) by {
            if j < k {
                assert(layers.deep_view()[j] == before[j]);
            }
        }
        k = k + 1;
    }
    assert(layers.deep_view() =~= spec_layers());
    layers
}

} // verus!
