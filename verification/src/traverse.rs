//! The walk over the scene graph that places the models: from the root,
//! through transform nodes, which move and turn what lies under them, and
//! group nodes, which fan out, down to the shape nodes.
//!
//! A node that is reached along two paths is visited once for each path, so
//! the walk takes as many steps as there are paths from the root. A path
//! that is longer than the number of nodes goes through some node twice; the
//! walk ends there with an error, so it ends on every graph.

use vstd::prelude::*;
use crate::dict::Entry;
use crate::dot_vox_data::{DotVoxData, DotVoxDataView};
use crate::error::SceneError;
use crate::rotation::{byte_apply, compose_bytes, Rotation};
use crate::scene::{
    spec_attribute, spec_orientation_text, spec_position_text, Frame, SceneNode, SceneNodeView,
    ShapeModel, ShapeModelView,
};

verus! {

/// A model of the scene, placed: which model, where its centre lies, and how
/// it is turned.
#[derive(Clone, Copy, PartialEq, Eq)]
pub struct Placement {
    /// The position of the model among the models.
    pub model_id: u32,
    /// The sum of the shifts on the path from the root, each turned by the
    /// rotations above it.
    pub position: (i64, i64, i64),
    /// The product of the rotations on the path from the root.
    pub rotation: Rotation,
}

/// A placement as a mathematical value, for contracts.
pub struct PlacementView {
    pub model_id: u32,
    pub position: (int, int, int),
    pub rotation: u8,
}

impl DeepView for Placement {
    type V = PlacementView;

    open spec fn deep_view(&self) -> PlacementView {
        PlacementView {
            model_id: self.model_id,
            position: (self.position.0 as int, self.position.1 as int, self.position.2 as int),
            rotation: self.rotation.byte(),
        }
    }
}

/// What has gathered on a path from the root: a position and the byte of a
/// rotation.
pub struct Pose {
    pub position: (int, int, int),
    pub rotation: u8,
}

/// A node that waits to be visited: its position among the nodes, what has
/// gathered on the path to it, and how many more nodes the path may take.
pub struct Task {
    pub node: u32,
    pub pose: Pose,
    pub fuel: nat,
}

/// Whether the three numbers fit in 64 bits.
pub open spec fn position_fits(p: (int, int, int)) -> bool {
    &&& i64::MIN <= p.0 <= i64::MAX
    &&& i64::MIN <= p.1 <= i64::MAX
    &&& i64::MIN <= p.2 <= i64::MAX
}

/// The pose under a transform node, from the pose above it and its first
/// frame. A shift of the frame is turned by the rotation above and added; a
/// rotation of the frame is multiplied on from the right. What the frame
/// does not hold, or holds in a form that cannot be read, changes nothing.
pub open spec fn spec_frame_pose(pose: Pose, frame: Seq<Entry>) -> Result<Pose, SceneError> {
    let position = match spec_attribute(frame, "_t"@, |t: Seq<char>| spec_position_text(t)) {
        Some(shift) => {
            let turned = byte_apply(pose.rotation, (shift.x as int, shift.y as int, shift.z as int));
            (pose.position.0 + turned.0, pose.position.1 + turned.1, pose.position.2 + turned.2)
        },
        None => pose.position,
    };
    let rotation = match spec_attribute(frame, "_r"@, |t: Seq<char>| spec_orientation_text(t)) {
        Some(byte) => compose_bytes(pose.rotation, byte) as u8,
        None => pose.rotation,
    };
    if position_fits(position) {
        Ok(Pose { position, rotation })
    } else {
        Err(SceneError::Overflow)
    }
}

/// The placements of the models of a shape node, in their order. Fails where
/// a model is not among the `model_count` models.
pub open spec fn spec_place(models: Seq<ShapeModelView>, model_count: nat, pose: Pose) -> Result<
    Seq<PlacementView>,
    SceneError,
>
    decreases models.len(),
{
    if models.len() == 0 {
        Ok(Seq::empty())
    } else {
        match spec_place(models.drop_last(), model_count, pose) {
            Err(e) => Err(e),
            Ok(placed) => if models.last().model_id as nat >= model_count {
                Err(SceneError::ModelOutOfRange)
            } else {
                Ok(
                    placed.push(
                        PlacementView {
                            model_id: models.last().model_id,
                            position: pose.position,
                            rotation: pose.rotation,
                        },
                    ),
                )
            },
        }
    }
}

/// The result of one walk, followed by the result of another: the
/// placements of both, or the first error.
pub open spec fn spec_then(
    first: Result<Seq<PlacementView>, SceneError>,
    second: Result<Seq<PlacementView>, SceneError>,
) -> Result<Seq<PlacementView>, SceneError> {
    match first {
        Err(e) => Err(e),
        Ok(placed) => match second {
            Err(e) => Err(e),
            Ok(more) => Ok(placed + more),
        },
    }
}

/// The placements under a node, depth first. A transform node moves and
/// turns the pose by its first frame and goes on to its child. A group node
/// goes to each of its children with the pose unchanged. A shape node places
/// its models.
pub open spec fn spec_visit(scenes: Seq<SceneNodeView>, model_count: nat, task: Task) -> Result<
    Seq<PlacementView>,
    SceneError,
>
    decreases task.fuel, 0nat,
{
    if task.node as nat >= scenes.len() {
        Err(SceneError::NodeOutOfRange)
    } else if task.fuel == 0 {
        Err(SceneError::Cycle)
    } else {
        match scenes[task.node as int] {
            SceneNodeView::Transform { attributes, frames, child, layer_id } => if frames.len()
                == 0 {
                Err(SceneError::NoFrame)
            } else {
                match spec_frame_pose(task.pose, frames[0]) {
                    Err(e) => Err(e),
                    Ok(pose) => spec_visit(
                        scenes,
                        model_count,
                        Task { node: child, pose, fuel: (task.fuel - 1) as nat },
                    ),
                }
            },
            SceneNodeView::Group { attributes, children } => spec_visit_all(
                scenes,
                model_count,
                children,
                task.pose,
                (task.fuel - 1) as nat,
            ),
            SceneNodeView::Shape { attributes, models } => spec_place(
                models,
                model_count,
                task.pose,
            ),
        }
    }
}

/// The placements under the nodes `children`, one after another, each
/// visited with the same pose.
pub open spec fn spec_visit_all(
    scenes: Seq<SceneNodeView>,
    model_count: nat,
    children: Seq<u32>,
    pose: Pose,
    fuel: nat,
) -> Result<Seq<PlacementView>, SceneError>
    decreases fuel, children.len() + 1,
{
    if children.len() == 0 {
        Ok(Seq::empty())
    } else {
        spec_then(
            spec_visit(scenes, model_count, Task { node: children[0], pose, fuel }),
            spec_visit_all(
                scenes,
                model_count,
                children.subrange(1, children.len() as int),
                pose,
                fuel,
            ),
        )
    }
}

/// The placements of the models of a scene. The walk starts at the first
/// node, which must be a transform node, with no shift and no rotation, and
/// follows no path for longer than there are nodes.
pub open spec fn spec_traverse(data: DotVoxDataView) -> Result<Seq<PlacementView>, SceneError> {
    if data.scenes.len() == 0 || !(data.scenes[0] is Transform) {
        Err(SceneError::RootNotTransform)
    } else {
        spec_visit(
            data.scenes,
            data.models.len(),
            Task { node: 0, pose: Pose { position: (0, 0, 0), rotation: 4 }, fuel: data.scenes.len() },
        )
    }
}

/// The result of visiting the waiting nodes, the last of them first.
pub open spec fn spec_run(scenes: Seq<SceneNodeView>, model_count: nat, work: Seq<Task>) -> Result<
    Seq<PlacementView>,
    SceneError,
>
    decreases work.len(),
{
    if work.len() == 0 {
        Ok(Seq::empty())
    } else {
        spec_then(
            spec_visit(scenes, model_count, work.last()),
            spec_run(scenes, model_count, work.drop_last()),
        )
    }
}

/// The children of a group node as waiting nodes, the first child last, so
/// that it is visited first.
pub open spec fn child_tasks(children: Seq<u32>, pose: Pose, fuel: nat) -> Seq<Task> {
    Seq::new(
        children.len(),
        |k: int| Task { node: children[children.len() - 1 - k], pose, fuel },
    )
}

/// The number of nodes that are taken from the list of waiting nodes until
/// what lies under a node has been visited, where no error ends the walk
/// before.
pub open spec fn spec_cost(scenes: Seq<SceneNodeView>, task: Task) -> nat
    decreases task.fuel, 0nat,
{
    if task.fuel == 0 || task.node as nat >= scenes.len() {
        1
    } else {
        match scenes[task.node as int] {
            SceneNodeView::Transform { attributes, frames, child, layer_id } => if frames.len()
                == 0 {
                1
            } else {
                match spec_frame_pose(task.pose, frames[0]) {
                    Err(_) => 1,
                    Ok(pose) => 1 + spec_cost(
                        scenes,
                        Task { node: child, pose, fuel: (task.fuel - 1) as nat },
                    ),
                }
            },
            SceneNodeView::Group { attributes, children } => 1 + spec_cost_all(
                scenes,
                children,
                task.pose,
                (task.fuel - 1) as nat,
            ),
            SceneNodeView::Shape { attributes, models } => 1,
        }
    }
}

/// The sum of the costs of the nodes `children`.
pub open spec fn spec_cost_all(
    scenes: Seq<SceneNodeView>,
    children: Seq<u32>,
    pose: Pose,
    fuel: nat,
) -> nat
    decreases fuel, children.len() + 1,
{
    if children.len() == 0 {
        0
    } else {
        spec_cost(scenes, Task { node: children[0], pose, fuel }) + spec_cost_all(
            scenes,
            children.subrange(1, children.len() as int),
            pose,
            fuel,
        )
    }
}

/// The sum of the costs of the waiting nodes.
pub open spec fn spec_work_cost(scenes: Seq<SceneNodeView>, work: Seq<Task>) -> nat
    decreases work.len(),
{
    if work.len() == 0 {
        0
    } else {
        spec_work_cost(scenes, work.drop_last()) + spec_cost(scenes, work.last())
    }
}

/// Three walks, one after another, come to the same however they are
/// grouped.
pub proof fn lemma_then_assoc(
    a: Result<Seq<PlacementView>, SceneError>,
    b: Result<Seq<PlacementView>, SceneError>,
    c: Result<Seq<PlacementView>, SceneError>,
)
    ensures
        spec_then(spec_then(a, b), c) == spec_then(a, spec_then(b, c)),
{
    if a is Ok && b is Ok && c is Ok {
        assert((a->Ok_0 + b->Ok_0) + c->Ok_0 =~= a->Ok_0 + (b->Ok_0 + c->Ok_0));
    }
}

/// A node that is put on the list is visited before those that waited.
pub proof fn lemma_run_push(
    scenes: Seq<SceneNodeView>,
    model_count: nat,
    work: Seq<Task>,
    task: Task,
)
    ensures
        spec_run(scenes, model_count, work.push(task)) == spec_then(
            spec_visit(scenes, model_count, task),
            spec_run(scenes, model_count, work),
        ),
        spec_work_cost(scenes, work.push(task)) == spec_work_cost(scenes, work) + spec_cost(
            scenes,
            task,
        ),
{
    assert(work.push(task).drop_last() =~= work);
}

/// The children of a group node, put on the list, are visited in their
/// order before the nodes that waited.
pub proof fn lemma_run_children(
    scenes: Seq<SceneNodeView>,
    model_count: nat,
    work: Seq<Task>,
    children: Seq<u32>,
    pose: Pose,
    fuel: nat,
)
    ensures
        spec_run(scenes, model_count, work + child_tasks(children, pose, fuel)) == spec_then(
            spec_visit_all(scenes, model_count, children, pose, fuel),
            spec_run(scenes, model_count, work),
        ),
        spec_work_cost(scenes, work + child_tasks(children, pose, fuel)) == spec_work_cost(
            scenes,
            work,
        ) + spec_cost_all(scenes, children, pose, fuel),
    decreases children.len(),
{
    if children.len() == 0 {
        assert(work + child_tasks(children, pose, fuel) =~= work);
    } else {
        let first = Task { node: children[0], pose, fuel };
        let others = children.subrange(1, children.len() as int);
        lemma_run_children(scenes, model_count, work, others, pose, fuel);
        assert(work + child_tasks(children, pose, fuel) =~= (work + child_tasks(
            others,
            pose,
            fuel,
        )).push(first));
        lemma_run_push(scenes, model_count, work + child_tasks(others, pose, fuel), first);
        lemma_then_assoc(
            spec_visit(scenes, model_count, first),
            spec_visit_all(scenes, model_count, others, pose, fuel),
            spec_run(scenes, model_count, work),
        );
    }
}

/// Where a model of the first `k` is not there, the placing fails.
pub proof fn lemma_place_fails(models: Seq<ShapeModelView>, model_count: nat, pose: Pose, k: int)
    requires
        0 <= k <= models.len(),
        spec_place(models.subrange(0, k), model_count, pose) is Err,
    ensures
        spec_place(models, model_count, pose) == Err::<Seq<PlacementView>, SceneError>(
            SceneError::ModelOutOfRange,
        ),
    decreases models.len() - k,
{
    lemma_place_error(models.subrange(0, k), model_count, pose);
    if k < models.len() {
        assert(models.subrange(0, k + 1).drop_last() =~= models.subrange(0, k));
        lemma_place_fails(models, model_count, pose, k + 1);
    } else {
        assert(models.subrange(0, k) =~= models);
    }
}

/// The placing fails in one way only.
pub proof fn lemma_place_error(models: Seq<ShapeModelView>, model_count: nat, pose: Pose)
    ensures
        spec_place(models, model_count, pose) is Err ==> spec_place(models, model_count, pose)
            == Err::<Seq<PlacementView>, SceneError>(SceneError::ModelOutOfRange),
    decreases models.len(),
{
    if models.len() > 0 {
        lemma_place_error(models.drop_last(), model_count, pose);
    }
}

/// Every node refers to nodes behind it only, as in a scene that is stored
/// from the root down.
pub open spec fn scene_ordered(scenes: Seq<SceneNodeView>) -> bool {
    forall|k: int|
        0 <= k < scenes.len() ==> match #[trigger] scenes[k] {
            SceneNodeView::Transform { attributes, frames, child, layer_id } => k < child,
            SceneNodeView::Group { attributes, children } => forall|j: int|
                0 <= j < children.len() ==> k < #[trigger] children[j],
            SceneNodeView::Shape { attributes, models } => true,
        }
}

/// In a scene whose nodes refer to nodes behind them only, no path is
/// longer than the number of nodes: the walk never ends for that reason.
pub proof fn lemma_ordered_visit(scenes: Seq<SceneNodeView>, model_count: nat, task: Task)
    requires
        scene_ordered(scenes),
        task.fuel + task.node >= scenes.len(),
    ensures
        spec_visit(scenes, model_count, task) != Err::<Seq<PlacementView>, SceneError>(
            SceneError::Cycle,
        ),
    decreases task.fuel, 0nat,
{
    if (task.node as nat) < scenes.len() {
        match scenes[task.node as int] {
            SceneNodeView::Transform { attributes, frames, child, layer_id } => {
                if frames.len() > 0 {
                    match spec_frame_pose(task.pose, frames[0]) {
                        Ok(pose) => {
                            lemma_ordered_visit(
                                scenes,
                                model_count,
                                Task { node: child, pose, fuel: (task.fuel - 1) as nat },
                            );
                        },
                        Err(_) => {},
                    }
                }
            },
            SceneNodeView::Group { attributes, children } => {
                lemma_ordered_visit_all(
                    scenes,
                    model_count,
                    children,
                    task.pose,
                    (task.fuel - 1) as nat,
                    task.node as int,
                );
            },
            SceneNodeView::Shape { attributes, models } => {
                lemma_place_error(models, model_count, task.pose);
            },
        }
    }
}

/// The same for the children of a group node, which all lie behind the
/// node `parent`.
pub proof fn lemma_ordered_visit_all(
    scenes: Seq<SceneNodeView>,
    model_count: nat,
    children: Seq<u32>,
    pose: Pose,
    fuel: nat,
    parent: int,
)
    requires
        scene_ordered(scenes),
        0 <= parent < scenes.len(),
        fuel + 1 + parent >= scenes.len(),
        forall|j: int| 0 <= j < children.len() ==> parent < #[trigger] children[j],
    ensures
        spec_visit_all(scenes, model_count, children, pose, fuel) != Err::<
            Seq<PlacementView>,
            SceneError,
        >(SceneError::Cycle),
    decreases fuel, children.len() + 1,
{
    if children.len() > 0 {
        let others = children.subrange(1, children.len() as int);
        assert(parent < children[0]);
        lemma_ordered_visit(scenes, model_count, Task { node: children[0], pose, fuel });
        assert forall|j: int| 0 <= j < others.len() implies parent < #[trigger] others[j] by {
            assert(others[j] == children[j + 1]);
        }
        lemma_ordered_visit_all(scenes, model_count, others, pose, fuel, parent);
    }
}

/// A scene whose nodes refer to nodes behind them only is never taken to
/// hold a cycle.
pub proof fn lemma_ordered_traverse(data: DotVoxDataView)
    requires
        scene_ordered(data.scenes),
    ensures
        spec_traverse(data) != Err::<Seq<PlacementView>, SceneError>(SceneError::Cycle),
{
    if data.scenes.len() > 0 {
        lemma_ordered_visit(
            data.scenes,
            data.models.len(),
            Task {
                node: 0,
                pose: Pose { position: (0, 0, 0), rotation: 4 },
                fuel: data.scenes.len(),
            },
        );
    }
}

/// A node that waits to be visited.
struct Pending {
    node: u32,
    position: (i64, i64, i64),
    rotation: Rotation,
    fuel: usize,
}

/// The pose that a position and a rotation make.
spec fn pose_of(position: (i64, i64, i64), rotation: Rotation) -> Pose {
    Pose {
        position: (position.0 as int, position.1 as int, position.2 as int),
        rotation: rotation.byte(),
    }
}

/// A waiting node as a mathematical value, for contracts.
spec fn task_of(pending: Pending) -> Task {
    Task {
        node: pending.node,
        pose: pose_of(pending.position, pending.rotation),
        fuel: pending.fuel as nat,
    }
}

/// The waiting nodes as mathematical values.
spec fn tasks_of(stack: Seq<Pending>) -> Seq<Task> {
    Seq::new(stack.len(), |k: int| task_of(stack[k]))
}

/// Moves and turns a pose by the first frame of a transform node.
fn frame_pose(position: (i64, i64, i64), rotation: Rotation, frame: &Frame) -> (r: Result<
    ((i64, i64, i64), Rotation),
    SceneError,
>)
    ensures
        match r {
            Ok((moved, turned)) => spec_frame_pose(pose_of(position, rotation), frame.deep_view())
                == Ok::<Pose, SceneError>(pose_of(moved, turned)),
            Err(e) => spec_frame_pose(pose_of(position, rotation), frame.deep_view()) == Err::<
                Pose,
                SceneError,
            >(e),
        },
{
    let moved: (i64, i64, i64) = match frame.position() {
        Some(shift) => {
            let turned = rotation.apply((shift.x, shift.y, shift.z));
            let x = match position.0.checked_add(turned.0) {
                Some(x) => x,
                None => {
                    return Err(SceneError::Overflow);
                },
            };
            let y = match position.1.checked_add(turned.1) {
                Some(y) => y,
                None => {
                    return Err(SceneError::Overflow);
                },
            };
            let z = match position.2.checked_add(turned.2) {
                Some(z) => z,
                None => {
                    return Err(SceneError::Overflow);
                },
            };
            (x, y, z)
        },
        None => position,
    };
    let turned: Rotation = match frame.orientation() {
        Some(child) => rotation.compose(child),
        None => rotation,
    };
    Ok((moved, turned))
}

/// Adds the placements of the models of a shape node.
fn place_models(
    out: &mut Vec<Placement>,
    models: &Vec<ShapeModel>,
    model_count: usize,
    position: (i64, i64, i64),
    rotation: Rotation,
) -> (r: Result<(), SceneError>)
    ensures
        match r {
            Ok(()) => spec_place(
                models.deep_view(),
                model_count as nat,
                pose_of(position, rotation),
            ) is Ok && final(out).deep_view() == old(out).deep_view() + spec_place(
                models.deep_view(),
                model_count as nat,
                pose_of(position, rotation),
            )->Ok_0,
            Err(e) => spec_place(models.deep_view(), model_count as nat, pose_of(position, rotation))
                == Err::<Seq<PlacementView>, SceneError>(e),
        },
{
    let ghost views = models.deep_view();
    let ghost pose = pose_of(position, rotation);
    let ghost before = out.deep_view();
    let mut k: usize = 0;
    assert(views.subrange(0, 0) =~= Seq::<ShapeModelView>::empty());
    assert(before + Seq::<PlacementView>::empty() =~= before);
    while k < models.len()
        invariant
            k <= models@.len(),
            views == models.deep_view(),
            pose == pose_of(position, rotation),
            spec_place(views.subrange(0, k as int), model_count as nat, pose) is Ok,
            out.deep_view() == before + spec_place(
                views.subrange(0, k as int),
                model_count as nat,
                pose,
            )->Ok_0,
        decreases models@.len() - k,
    {
        proof {
            assert(views[k as int] == models@[k as int].deep_view());
            assert(views.subrange(0, k + 1).drop_last() =~= views.subrange(0, k as int));
            assert(views.subrange(0, k + 1).last() == views[k as int]);
        }
        let model_id: u32 = models[k].model_id;
        if model_id as usize >= model_count {
            proof {
                lemma_place_fails(views, model_count as nat, pose, k + 1);
            }
            return Err(SceneError::ModelOutOfRange);
        }
        let ghost placed = out.deep_view();
        let placement = Placement { model_id, position, rotation };
        out.push(placement);
        assert(out.deep_view() =~= placed.push(placement.deep_view()));
        assert(out.deep_view() =~= before + spec_place(
            views.subrange(0, k + 1),
            model_count as nat,
            pose,
        )->Ok_0);
        k = k + 1;
    }
    assert(views.subrange(0, k as int) =~= views);
    Ok(())
}

/// Puts the children of a group node on the list of waiting nodes, the
/// first child last.
fn push_children(
    stack: &mut Vec<Pending>,
    children: &Vec<u32>,
    position: (i64, i64, i64),
    rotation: Rotation,
    fuel: usize,
)
    ensures
        tasks_of(final(stack)@) == tasks_of(old(stack)@) + child_tasks(
            children@,
            pose_of(position, rotation),
            fuel as nat,
        ),
{
    let ghost pose = pose_of(position, rotation);
    let ghost before = tasks_of(stack@);
    let count: usize = children.len();
    let mut j: usize = count;
    assert(before + child_tasks(children@.subrange(j as int, count as int), pose, fuel as nat)
        =~= before);
    while j > 0
        invariant
            j <= count,
            count == children@.len(),
            pose == pose_of(position, rotation),
            tasks_of(stack@) == before + child_tasks(
                children@.subrange(j as int, count as int),
                pose,
                fuel as nat,
            ),
        decreases j,
    {
        j = j - 1;
        let ghost waiting = tasks_of(stack@);
        let pending = Pending { node: children[j], position, rotation, fuel };
        stack.push(pending);
        assert(tasks_of(stack@) =~= waiting.push(task_of(pending)));
        assert(waiting.push(task_of(pending)) =~= before + child_tasks(
            children@.subrange(j as int, count as int),
            pose,
            fuel as nat,
        ));
    }
    assert(children@.subrange(0, count as int) =~= children@);
}

impl DotVoxData {
    /// Places the models of the scene: walks the scene graph from the first
    /// node, depth first, with a list of the nodes that wait instead of
    /// recursion, and gives a placement for each model of each shape node
    /// that is reached, in the order in which they are reached.
    pub fn traverse(&self) -> (r: Result<Vec<Placement>, SceneError>)
        ensures
            match r {
                Ok(placements) => spec_traverse(self.deep_view()) == Ok::<
                    Seq<PlacementView>,
                    SceneError,
                >(placements.deep_view()),
                Err(e) => spec_traverse(self.deep_view()) == Err::<Seq<PlacementView>, SceneError>(
                    e,
                ),
            },
    {
        let ghost scenes = self.scenes.deep_view();
        let ghost model_count = self.models@.len();
        if self.scenes.len() == 0 {
            return Err(SceneError::RootNotTransform);
        }
        assert(scenes[0] == self.scenes@[0].deep_view());
        match &self.scenes[0] {
            SceneNode::Transform { .. } => {},
            _ => {
                return Err(SceneError::RootNotTransform);
            },
        }
        let root = Pending {
            node: 0,
            position: (0, 0, 0),
            rotation: Rotation::identity(),
            fuel: self.scenes.len(),
        };
        let mut out: Vec<Placement> = Vec::new();
        let mut stack: Vec<Pending> = Vec::new();
        stack.push(root);
        proof {
            assert(tasks_of(stack@) =~= Seq::<Task>::empty().push(task_of(root)));
            lemma_run_push(scenes, model_count, Seq::<Task>::empty(), task_of(root));
            assert(out.deep_view() =~= Seq::<PlacementView>::empty());
            let visit = spec_visit(scenes, model_count, task_of(root));
            assert(spec_then(Ok(out.deep_view()), spec_run(scenes, model_count, tasks_of(stack@)))
                == visit) by {
                if visit is Ok {
                    assert(Seq::<PlacementView>::empty() + (visit->Ok_0 + Seq::<
                        PlacementView,
                    >::empty()) =~= visit->Ok_0);
                }
            }
        }
        loop
            invariant
                scenes == self.scenes.deep_view(),
                model_count == self.models@.len(),
                spec_then(
                    Ok(out.deep_view()),
                    spec_run(scenes, model_count, tasks_of(stack@)),
                ) == spec_traverse(self.deep_view()),
            decreases spec_work_cost(scenes, tasks_of(stack@)),
        {
            let ghost work = tasks_of(stack@);
            let pending = match stack.pop() {
                Some(pending) => pending,
                None => {
                    assert(out.deep_view() + Seq::<PlacementView>::empty() =~= out.deep_view());
                    return Ok(out);
                },
            };
            let ghost rest = tasks_of(stack@);
            let ghost task = task_of(pending);
            proof {
                assert(rest =~= work.drop_last());
                assert(work.last() == task);
            }
            if pending.node as usize >= self.scenes.len() {
                return Err(SceneError::NodeOutOfRange);
            }
            if pending.fuel == 0 {
                return Err(SceneError::Cycle);
            }
            assert(scenes[pending.node as int] == self.scenes@[pending.node as int].deep_view());
            match &self.scenes[pending.node as usize] {
                SceneNode::Transform { frames, child, .. } => {
                    if frames.len() == 0 {
                        return Err(SceneError::NoFrame);
                    }
                    assert(frames.deep_view()[0] == frames@[0].deep_view());
                    let (position, rotation) = frame_pose(pending.position, pending.rotation, &frames[0])?;
                    let below = Pending {
                        node: *child,
                        position,
                        rotation,
                        fuel: pending.fuel - 1,
                    };
                    stack.push(below);
                    proof {
                        assert(tasks_of(stack@) =~= rest.push(task_of(below)));
                        lemma_run_push(scenes, model_count, rest, task_of(below));
                    }
                },
                SceneNode::Group { children, .. } => {
                    push_children(
                        &mut stack,
                        children,
                        pending.position,
                        pending.rotation,
                        pending.fuel - 1,
                    );
                    proof {
                        lemma_run_children(
                            scenes,
                            model_count,
                            rest,
                            children@,
                            task.pose,
                            (pending.fuel - 1) as nat,
                        );
                    }
                },
                SceneNode::Shape { models, .. } => {
                    let ghost placed = out.deep_view();
                    match place_models(
                        &mut out,
                        models,
                        self.models.len(),
                        pending.position,
                        pending.rotation,
                    ) {
                        Err(e) => {
                            return Err(e);
                        },
                        Ok(()) => {
                            proof {
                                let here = spec_visit(scenes, model_count, task);
                                lemma_then_assoc(
                                    Ok(placed),
                                    here,
                                    spec_run(scenes, model_count, rest),
                                );
                            }
                        },
                    }
                },
            }
        }
    }
}

} // verus!
