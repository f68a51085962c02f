//! What the game takes out of an exported scene: the ball's mesh node, the colliders in world
//! space, the ball's spawn point and scale, and the tabletop.

pub mod laws;

use vstd::prelude::*;
use vstd::string::*;

use awsm_renderer_scene::ColliderShape as FileShape;
use awsm_renderer_scene::EditorNode;
use awsm_renderer_scene::NodeKind as FileKind;
use awsm_renderer_scene::Scene;

use crate::protocol::{
    ColliderInit, ColliderShapeMsg, ROLE_BALL, ROLE_FLOOR, ROLE_WALL,
};
use crate::text::{contains, joined, occurs, same};
use crate::units::{div_round, held, hold, micros_from, micros_of, number, round_div};

verus! {

// ---------------------------------------------------------------------------------------
// The scene file

/// A parsed scene file: its nodes, which the game reads, and what only the renderer asks for.
#[verifier::external_type_specification]
#[verifier::external_body]
pub struct ExScene(awsm_renderer_scene::Scene);

/// A node of a parsed scene file, with the nodes below it.
#[verifier::external_type_specification]
#[verifier::external_body]
pub struct ExEditorNode(awsm_renderer_scene::EditorNode);

/// What a node of a scene file carries, as far as the game asks.
#[derive(Debug, Clone, Copy, PartialEq, Eq, Structural)]
pub enum NodeTag {
    Other,
    /// Renderable geometry: built, skinned, or clustered.
    Mesh,
    SkinnedMesh,
    ClusterMesh,
    /// The rest are colliders.
    Box,
    Sphere,
    Capsule,
    Cylinder,
    Cone,
    Ellipsoid,
}

/// The numbers that bits stand for.
pub open spec fn numbers(bits: Seq<u32>) -> Seq<Option<u32>> {
    bits.map_values(|b: u32| number(b))
}

/// A node of a scene file with all that is below it. What is no number is none, whatever its
/// bits.
pub struct TreeView {
    pub id: u128,
    pub name: Seq<char>,
    pub tag: NodeTag,
    /// A collider's half extents, its radius, or its half height and its radius; zeros after
    /// that.
    pub extents: Seq<Option<u32>>,
    /// Its place in its parent: the translation (three numbers), the rotation (four) and the
    /// scale (three).
    pub local: Seq<Option<u32>>,
    pub children: Seq<TreeView>,
}

/// What a scene file's text holds: its root nodes with all that is below them, or why it is no
/// scene.
pub uninterp spec fn scene_trees(text: Seq<char>) -> Result<Seq<TreeView>, Seq<char>>;

/// The root nodes that a parsed scene holds, with all that is below them.
pub uninterp spec fn trees_in(scene: Scene) -> Seq<TreeView>;

/// What a node of a parsed scene holds, with all that is below it.
pub uninterp spec fn tree_in(node: EditorNode) -> TreeView;

/// What nodes of a parsed scene hold.
pub open spec fn trees(nodes: Seq<EditorNode>) -> Seq<TreeView> {
    nodes.map_values(|n: EditorNode| tree_in(n))
}

/// Parses a scene file with `awsm_renderer_scene::project_dir::scene_from_toml`. Trusted:
/// whether the text is a scene, the nodes of the scene, and the fault where it is none, depend
/// on the text alone. What else the scene holds is not spoken of: an asset without an id gets
/// a random one.
#[verifier::external_body]
fn scene_from_toml(text: &str) -> (r: Result<Scene, String>)
    ensures
        match r {
            Ok(scene) => scene_trees(text@) == Ok::<_, Seq<char>>(trees_in(scene)),
            Err(fault) => scene_trees(text@) == Err::<Seq<TreeView>, _>(fault@),
        },
{
    awsm_renderer_scene::project_dir::scene_from_toml(text).map_err(|e| e.to_string())
}

/// Reads the field `nodes` of an `awsm_renderer_scene::Scene`. Trusted: it holds the scene's
/// root nodes, in their order.
#[verifier::external_body]
fn roots_of(scene: &Scene) -> (r: &Vec<EditorNode>)
    ensures
        trees(r@) == trees_in(*scene),
{
    &scene.nodes
}

/// Reads the field `children` of an `awsm_renderer_scene::EditorNode`. Trusted: it holds the
/// nodes directly below, in their order.
#[verifier::external_body]
fn children_of(node: &EditorNode) -> (r: &Vec<EditorNode>)
    ensures
        trees(r@) == tree_in(*node).children,
{
    &node.children
}

/// Reads the field `id` of an `awsm_renderer_scene::EditorNode`. Trusted: it is the node's id.
#[verifier::external_body]
fn id_of(node: &EditorNode) -> (r: u128)
    ensures
        r == tree_in(*node).id,
{
    node.id.0.as_u128()
}

/// Reads the field `name` of an `awsm_renderer_scene::EditorNode`. Trusted: it is the node's
/// name.
#[verifier::external_body]
fn name_of(node: &EditorNode) -> (r: String)
    ensures
        r@ == tree_in(*node).name,
{
    node.name.clone()
}

/// Tells the variants of the field `kind` of an `awsm_renderer_scene::EditorNode` apart.
/// Trusted: the tag is the variant's; all variants that the game does not ask for share one.
#[verifier::external_body]
fn tag_of(node: &EditorNode) -> (r: NodeTag)
    ensures
        r == tree_in(*node).tag,
{
    match node.kind {
        FileKind::Mesh { .. } => NodeTag::Mesh,
        FileKind::SkinnedMesh { .. } => NodeTag::SkinnedMesh,
        FileKind::ClusterMesh { .. } => NodeTag::ClusterMesh,
        FileKind::Collider(FileShape::Box { .. }) => NodeTag::Box,
        FileKind::Collider(FileShape::Sphere { .. }) => NodeTag::Sphere,
        FileKind::Collider(FileShape::Capsule { .. }) => NodeTag::Capsule,
        FileKind::Collider(FileShape::Cylinder { .. }) => NodeTag::Cylinder,
        FileKind::Collider(FileShape::Cone { .. }) => NodeTag::Cone,
        FileKind::Collider(FileShape::Ellipsoid { .. }) => NodeTag::Ellipsoid,
        _ => NodeTag::Other,
    }
}

/// Reads the numbers of a collider out of the field `kind` of an
/// `awsm_renderer_scene::EditorNode`, by their bits; zeros stand in for what it does not have.
/// Trusted: the numbers are the collider's; of what is no number nothing more is said.
#[verifier::external_body]
fn extents_of(node: &EditorNode) -> (r: [u32; 3])
    ensures
        numbers(r@) == tree_in(*node).extents,
{
    match &node.kind {
        FileKind::Collider(shape) => match shape {
            FileShape::Box { half_extents } => half_extents.map(|x| x.to_bits()),
            FileShape::Sphere { radius } => [radius.to_bits(), 0, 0],
            FileShape::Capsule { half_height, radius } => [half_height.to_bits(), radius.to_bits(), 0],
            FileShape::Cylinder { half_height, radius } => [half_height.to_bits(), radius.to_bits(), 0],
            FileShape::Cone { half_height, radius } => [half_height.to_bits(), radius.to_bits(), 0],
            FileShape::Ellipsoid { half_extents } => half_extents.map(|x| x.to_bits()),
        },
        _ => [0; 3],
    }
}

/// Reads the field `transform` of an `awsm_renderer_scene::EditorNode`, by the bits of its
/// numbers: three of translation, four of rotation, three of scale. Trusted: the numbers are
/// the node's; of what is no number nothing more is said.
#[verifier::external_body]
fn local_of(node: &EditorNode) -> (r: Vec<u32>)
    ensures
        numbers(r@) == tree_in(*node).local,
        r@.len() == 10,
{
    let t = &node.transform;
    let all = t.translation.iter().chain(&t.rotation).chain(&t.scale);
    all.map(|x| x.to_bits()).collect()
}

/// A node of a scene file. Numbers are the bits of IEEE single-precision numbers.
pub struct FileNode {
    /// How many nodes it stands below.
    pub depth: usize,
    pub id: u128,
    pub name: String,
    pub tag: NodeTag,
    /// A collider's half extents, its radius, or its half height and its radius; zeros after
    /// that.
    pub extents: [u32; 3],
    /// Its place in its parent: the translation (three numbers), the rotation (four) and the
    /// scale (three).
    pub local: Vec<u32>,
}

/// What a [`FileNode`] holds.
pub struct NodeView {
    pub depth: nat,
    pub id: u128,
    pub name: Seq<char>,
    pub tag: NodeTag,
    pub extents: Seq<Option<u32>>,
    pub local: Seq<Option<u32>>,
}

impl View for FileNode {
    type V = NodeView;

    open spec fn view(&self) -> NodeView {
        NodeView {
            depth: self.depth as nat,
            id: self.id,
            name: self.name@,
            tag: self.tag,
            extents: numbers(self.extents@),
            local: numbers(self.local@),
        }
    }
}

/// What nodes hold.
pub open spec fn views(nodes: Seq<FileNode>) -> Seq<NodeView> {
    nodes.map_values(|n: FileNode| n@)
}

/// A node by itself, so many nodes below the top.
pub open spec fn node_at(t: TreeView, depth: nat) -> NodeView {
    NodeView {
        depth,
        id: t.id,
        name: t.name,
        tag: t.tag,
        extents: t.extents,
        local: t.local,
    }
}

/// Trees as a list, depth first: each node before its children, which are one deeper.
pub open spec fn flattened(ts: Seq<TreeView>, depth: nat) -> Seq<NodeView>
    decreases ts,
{
    if ts.len() == 0 {
        seq![]
    } else {
        flattened(ts.drop_last(), depth) + seq![node_at(ts.last(), depth)] + flattened(
            ts.last().children,
            depth + 1,
        )
    }
}

/// Lists nodes and all that is below them, depth first.
fn walk_nodes(nodes: &Vec<EditorNode>, depth: usize, out: &mut Vec<FileNode>)
    requires
        depth <= old(out)@.len(),
        forall|i: int| 0 <= i < old(out)@.len() ==> (#[trigger] old(out)@[i]).local@.len() == 10,
    ensures
        views(final(out)@) == views(old(out)@) + flattened(trees(nodes@), depth as nat),
        forall|i: int|
            0 <= i < final(out)@.len() ==> (#[trigger] final(out)@[i]).local@.len() == 10,
    decreases trees(nodes@),
{
    let ghost ts = trees(nodes@);
    let ghost before = views(out@);
    let mut i: usize = 0;
    assert(ts.take(0) =~= seq![]);
    assert(views(out@) =~= before + flattened(ts.take(0), depth as nat));
    while i < nodes.len()
        invariant
            i <= nodes@.len(),
            ts == trees(nodes@),
            before.len() >= depth,
            views(out@) == before + flattened(ts.take(i as int), depth as nat),
            forall|k: int| 0 <= k < out@.len() ==> (#[trigger] out@[k]).local@.len() == 10,
        decreases nodes@.len() - i,
    {
        let node = &nodes[i];
        let ghost t = ts[i as int];
        let ghost listed = out@;
        assert(t == tree_in(*node));
        let next = FileNode {
            depth,
            id: id_of(node),
            name: name_of(node),
            tag: tag_of(node),
            extents: extents_of(node),
            local: local_of(node),
        };
        assert(next@ == node_at(t, depth as nat));
        out.push(next);
        proof {
            assert(views(listed).len() == listed.len());
            assert(views(out@) =~= views(listed).push(next@));
            assert(decreases_to!(ts => ts[i as int]));
            assert(decreases_to!(t => t.children));
        }
        assert(out.len() > depth);
        let below = children_of(node);
        walk_nodes(below, depth + 1, out);
        proof {
            assert(ts.take(i + 1).drop_last() =~= ts.take(i as int));
            assert(ts.take(i + 1).last() == t);
            assert(views(out@) =~= before + flattened(ts.take(i + 1), depth as nat));
        }
        i = i + 1;
    }
    assert(ts.take(i as int) =~= ts);
}

/// The nodes of a parsed scene, depth first.
fn read_nodes(scene: &Scene) -> (r: Vec<FileNode>)
    ensures
        views(r@) == flattened(trees_in(*scene), 0),
        forall|i: int| 0 <= i < r@.len() ==> (#[trigger] r@[i]).local@.len() == 10,
{
    let mut r: Vec<FileNode> = Vec::new();
    walk_nodes(roots_of(scene), 0, &mut r);
    assert(views(r@) =~= flattened(trees_in(*scene), 0));
    r
}

/// How far a scene file's download got.
pub enum Fetched {
    /// No answer came.
    NotSent(String),
    /// The answer could not be read.
    NotRead(String),
    Text(String),
}

/// The line that reports a parser's fault.
pub open spec fn parse_line(fault: Seq<char>) -> Seq<char> {
    "parse: "@ + fault
}

/// A parser's outcome, with its fault made into a line.
pub fn parse_outcome<T>(parsed: Result<T, String>) -> (r: Result<T, String>)
    ensures
        match parsed {
            Ok(v) => r == Ok::<T, String>(v),
            Err(fault) => r matches Err(line) && line@ == parse_line(fault@),
        },
{
    match parsed {
        Ok(v) => Ok(v),
        Err(fault) => Err(joined("parse: ", fault.as_str())),
    }
}

/// The scene of a download with its nodes, depth first, or a line that says which stage failed
/// and why.
pub fn fetch_scene(fetched: Fetched) -> (r: Result<(Scene, Vec<FileNode>), String>)
    ensures
        match fetched {
            Fetched::NotSent(e) => r matches Err(line) && line@ == "fetch: "@ + e@,
            Fetched::NotRead(e) => r matches Err(line) && line@ == "read: "@ + e@,
            Fetched::Text(text) => match scene_trees(text@) {
                Ok(ts) => r matches Ok(scene) && trees_in(scene.0) == ts && views(scene.1@)
                    == flattened(ts, 0) && forall|i: int|
                    0 <= i < scene.1@.len() ==> (#[trigger] scene.1@[i]).local@.len() == 10,
                Err(fault) => r matches Err(line) && line@ == parse_line(fault),
            },
        },
{
    match fetched {
        Fetched::NotSent(e) => Err(joined("fetch: ", e.as_str())),
        Fetched::NotRead(e) => Err(joined("read: ", e.as_str())),
        Fetched::Text(text) => match parse_outcome(scene_from_toml(text.as_str())) {
            Ok(scene) => {
                let nodes = read_nodes(&scene);
                Ok((scene, nodes))
            },
            Err(line) => Err(line),
        },
    }
}

// ---------------------------------------------------------------------------------------
// The node tree

/// The name of the root node that holds the ball.
pub open spec fn ball_name() -> Seq<char> {
    "Ball"@
}

/// A node at the top of the tree that is named as the ball.
pub open spec fn is_ball(n: NodeView) -> bool {
    n.depth == 0 && n.name == ball_name()
}

/// The first root named as the ball from `from` on.
pub open spec fn ball_at(ns: Seq<NodeView>, from: int) -> Option<int>
    decreases ns.len() - from,
{
    if from < 0 || from >= ns.len() {
        None
    } else if is_ball(ns[from]) {
        Some(from)
    } else {
        ball_at(ns, from + 1)
    }
}

/// Where the nodes below `at` end, looking from `from` on: at the next node that is no deeper.
pub open spec fn tree_end(ns: Seq<NodeView>, at: int, from: int) -> int
    decreases ns.len() - from,
{
    if from >= ns.len() {
        ns.len() as int
    } else if ns[from].depth <= ns[at].depth {
        from
    } else {
        tree_end(ns, at, from + 1)
    }
}

/// Whether a node is renderable geometry of any kind.
pub open spec fn is_mesh(n: NodeView) -> bool {
    n.tag == NodeTag::Mesh || n.tag == NodeTag::SkinnedMesh || n.tag == NodeTag::ClusterMesh
}

/// The id of the first node from `from` on and before `end` that carries a mesh.
pub open spec fn first_mesh(ns: Seq<NodeView>, from: int, end: int) -> Option<u128>
    decreases end - from,
{
    if from >= end {
        None
    } else if is_mesh(ns[from]) {
        Some(ns[from].id)
    } else {
        first_mesh(ns, from + 1, end)
    }
}

/// The id of the first mesh node at or below a node, depth first.
pub open spec fn mesh_below(ns: Seq<NodeView>, at: int) -> Option<u128> {
    first_mesh(ns, at, tree_end(ns, at, at + 1))
}

/// The mesh node that the physics moves: the first one in the tree of the first root named as
/// the ball.
pub open spec fn mesh_of(ns: Seq<NodeView>) -> Result<u128, SceneError> {
    match ball_at(ns, 0) {
        None => Err(SceneError::NoBall),
        Some(at) => match mesh_below(ns, at) {
            None => Err(SceneError::NoMesh),
            Some(id) => Ok(id),
        },
    }
}

/// The node directly above another: the nearest before it that is less deep. None for a root.
pub open spec fn above_in(ns: Seq<NodeView>, at: int, before: int) -> Option<int>
    decreases before,
{
    if before <= 0 {
        None
    } else if ns[before - 1].depth < ns[at].depth {
        Some(before - 1)
    } else {
        above_in(ns, at, before - 1)
    }
}

/// The node directly above the one at `at`; none above a root. It comes earlier in the list.
pub fn parent_of(nodes: &Vec<FileNode>, at: usize) -> (r: Option<usize>)
    requires
        at < nodes@.len(),
    ensures
        match r {
            Some(p) => above_in(views(nodes@), at as int, at as int) == Some(p as int) && p < at,
            None => above_in(views(nodes@), at as int, at as int) is None,
        },
{
    let depth: usize = nodes[at].depth;
    let mut before: usize = at;
    assert(views(nodes@)[at as int] == nodes@[at as int]@);
    while before > 0
        invariant
            before <= at < nodes@.len(),
            depth == views(nodes@)[at as int].depth,
            above_in(views(nodes@), at as int, at as int) == above_in(
                views(nodes@),
                at as int,
                before as int,
            ),
        decreases before,
    {
        assert(views(nodes@)[before - 1] == nodes@[before - 1]@);
        if nodes[before - 1].depth < depth {
            return Some(before - 1);
        }
        before = before - 1;
    }
    None
}

/// The first node that carries renderable geometry at or below the one at `at`, depth first.
pub fn find_mesh_node(nodes: &Vec<FileNode>, at: usize) -> (r: Option<u128>)
    requires
        at < nodes@.len(),
    ensures
        r == mesh_below(views(nodes@), at as int),
{
    let ghost ns = views(nodes@);
    let depth: usize = nodes[at].depth;
    let mut i: usize = at;
    assert(ns[at as int] == nodes@[at as int]@);
    while i < nodes.len() && (i == at || nodes[i].depth > depth)
        invariant
            at <= i <= nodes@.len(),
            at < nodes@.len(),
            ns == views(nodes@),
            depth == ns[at as int].depth,
            i > at ==> tree_end(ns, at as int, at + 1) == tree_end(ns, at as int, i as int),
            mesh_below(ns, at as int) == first_mesh(ns, i as int, tree_end(ns, at as int, at + 1)),
        decreases nodes@.len() - i,
    {
        proof {
            assert(ns[i as int] == nodes@[i as int]@);
            tree_end_is_behind(ns, at as int, i + 1);
        }
        if matches!(nodes[i].tag, NodeTag::Mesh | NodeTag::SkinnedMesh | NodeTag::ClusterMesh) {
            return Some(nodes[i].id);
        }
        i = i + 1;
    }
    proof {
        if i < nodes@.len() {
            assert(ns[i as int] == nodes@[i as int]@);
        }
        assert(tree_end(ns, at as int, at + 1) == i);
    }
    None
}

proof fn tree_end_is_behind(ns: Seq<NodeView>, at: int, from: int)
    requires
        0 <= from <= ns.len(),
    ensures
        from <= tree_end(ns, at, from) <= ns.len(),
        forall|j: int| from <= j < tree_end(ns, at, from) ==> ns[j].depth > ns[at].depth,
        tree_end(ns, at, from) < ns.len() ==> ns[tree_end(ns, at, from)].depth <= ns[at].depth,
    decreases ns.len() - from,
{
    if from < ns.len() && ns[from].depth > ns[at].depth {
        tree_end_is_behind(ns, at, from + 1);
    }
}

/// Why a scene cannot be played.
#[derive(Debug, Clone, Copy, PartialEq, Eq, Structural)]
pub enum SceneError {
    /// No root is named as the ball.
    NoBall,
    /// The ball has no mesh to move.
    NoMesh,
}

impl SceneError {
    /// The error in words.
    pub fn message(&self) -> (r: &'static str)
        ensures
            r@ == match self {
                SceneError::NoBall => "scene has no node named 'Ball'"@,
                SceneError::NoMesh => "'Ball' has no renderable mesh node to drive"@,
            },
    {
        match self {
            SceneError::NoBall => "scene has no node named 'Ball'",
            SceneError::NoMesh => "'Ball' has no renderable mesh node to drive",
        }
    }
}

/// The id of the mesh node that the physics moves: the first one in the tree of the first
/// root named as the ball.
pub fn ball_mesh(nodes: &Vec<FileNode>) -> (r: Result<u128, SceneError>)
    ensures
        r == mesh_of(views(nodes@)),
{
    let ghost ns = views(nodes@);
    let mut i: usize = 0;
    while i < nodes.len()
        invariant
            i <= nodes@.len(),
            ns == views(nodes@),
            ball_at(ns, 0) == ball_at(ns, i as int),
        decreases nodes@.len() - i,
    {
        assert(ns[i as int] == nodes@[i as int]@);
        if nodes[i].depth == 0 && same(nodes[i].name.as_str(), "Ball") {
            return match find_mesh_node(nodes, i) {
                Some(id) => Ok(id),
                None => Err(SceneError::NoMesh),
            };
        }
        i = i + 1;
    }
    Err(SceneError::NoBall)
}

/// A collider as it was authored (micrometres, before the node's scale).
#[derive(Debug, Clone, Copy, PartialEq, Eq)]
pub enum ColliderShape {
    Box { half_extents: [i64; 3] },
    Sphere { radius: i64 },
    Capsule { half_height: i64, radius: i64 },
    Cylinder { half_height: i64, radius: i64 },
    Cone { half_height: i64, radius: i64 },
    Ellipsoid { half_extents: [i64; 3] },
}

/// The collider that a node carries.
pub open spec fn collider_in(n: NodeView) -> Option<ColliderShape> {
    let (a, b, c) = (micros_of(n.extents[0]), micros_of(n.extents[1]), micros_of(n.extents[2]));
    match n.tag {
        NodeTag::Box => Some(ColliderShape::Box { half_extents: [a, b, c] }),
        NodeTag::Sphere => Some(ColliderShape::Sphere { radius: a }),
        NodeTag::Capsule => Some(ColliderShape::Capsule { half_height: a, radius: b }),
        NodeTag::Cylinder => Some(ColliderShape::Cylinder { half_height: a, radius: b }),
        NodeTag::Cone => Some(ColliderShape::Cone { half_height: a, radius: b }),
        NodeTag::Ellipsoid => Some(ColliderShape::Ellipsoid { half_extents: [a, b, c] }),
        _ => None,
    }
}

/// The collider that a node carries.
pub fn collider_of(node: &FileNode) -> (r: Option<ColliderShape>)
    ensures
        r == collider_in(node@),
{
    proof {
        assert(node@.extents[0] == number(node.extents@[0]));
        assert(node@.extents[1] == number(node.extents@[1]));
        assert(node@.extents[2] == number(node.extents@[2]));
    }
    let a: i64 = micros_from(node.extents[0]);
    let b: i64 = micros_from(node.extents[1]);
    let c: i64 = micros_from(node.extents[2]);
    match node.tag {
        NodeTag::Box => Some(ColliderShape::Box { half_extents: [a, b, c] }),
        NodeTag::Sphere => Some(ColliderShape::Sphere { radius: a }),
        NodeTag::Capsule => Some(ColliderShape::Capsule { half_height: a, radius: b }),
        NodeTag::Cylinder => Some(ColliderShape::Cylinder { half_height: a, radius: b }),
        NodeTag::Cone => Some(ColliderShape::Cone { half_height: a, radius: b }),
        NodeTag::Ellipsoid => Some(ColliderShape::Ellipsoid { half_extents: [a, b, c] }),
        _ => None,
    }
}

// ---------------------------------------------------------------------------------------
// Physics out of the scene

/// An extent under a scale's size, as far as 64 bits reach.
pub open spec fn folded(extent: i64, scale: int) -> i64 {
    held(div_round(extent * scale, 1_000_000))
}

/// A number without its sign.
pub open spec fn magnitude(x: int) -> int {
    if x < 0 {
        -x
    } else {
        x
    }
}

/// The larger of two numbers.
pub open spec fn larger(a: int, b: int) -> int {
    if a < b {
        b
    } else {
        a
    }
}

/// A collider with its node's scale folded into its extents: each axis of a box by its own
/// scale, a height by the vertical scale, a radius by the larger scale across it. The engine
/// has no ellipsoid.
pub open spec fn shape_of(shape: ColliderShape, scale: [i64; 3]) -> Option<ColliderShapeMsg> {
    let sx = magnitude(scale@[0] as int);
    let sy = magnitude(scale@[1] as int);
    let sz = magnitude(scale@[2] as int);
    let radial = larger(sx, sz);
    match shape {
        ColliderShape::Box { half_extents } => Some(
            ColliderShapeMsg::Cuboid {
                half_extents: [
                    folded(half_extents@[0], sx),
                    folded(half_extents@[1], sy),
                    folded(half_extents@[2], sz),
                ],
            },
        ),
        ColliderShape::Sphere { radius } => Some(
            ColliderShapeMsg::Ball { radius: folded(radius, larger(larger(sx, sy), sz)) },
        ),
        ColliderShape::Capsule { half_height, radius } => Some(
            ColliderShapeMsg::Capsule {
                half_height: folded(half_height, sy),
                radius: folded(radius, radial),
            },
        ),
        ColliderShape::Cylinder { half_height, radius } => Some(
            ColliderShapeMsg::Cylinder {
                half_height: folded(half_height, sy),
                radius: folded(radius, radial),
            },
        ),
        ColliderShape::Cone { half_height, radius } => Some(
            ColliderShapeMsg::Cone {
                half_height: folded(half_height, sy),
                radius: folded(radius, radial),
            },
        ),
        ColliderShape::Ellipsoid { .. } => None,
    }
}

fn fold(extent: i64, scale: u64) -> (r: i64)
    requires
        scale <= 0x8000_0000_0000_0000,
    ensures
        r == folded(extent, scale as int),
{
    let (e, s): (i128, i128) = (extent as i128, scale as i128);
    proof {
        assert(-0x4000_0000_0000_0000_0000_0000_0000_0000 <= e * s
            <= 0x4000_0000_0000_0000_0000_0000_0000_0000) by (nonlinear_arith)
            requires
                -0x8000_0000_0000_0000 <= e <= 0x8000_0000_0000_0000,
                0 <= s <= 0x8000_0000_0000_0000,
        ;
    }
    hold(round_div(e * s, 1_000_000))
}

fn unsigned(x: i64) -> (r: u64)
    ensures
        r == magnitude(x as int),
        r <= 0x8000_0000_0000_0000,
{
    if x < 0 {
        (-(x as i128)) as u64
    } else {
        x as u64
    }
}

fn max_of(a: u64, b: u64) -> (r: u64)
    ensures
        r == larger(a as int, b as int),
{
    if a < b {
        b
    } else {
        a
    }
}

/// Folds a node's scale into its collider. An ellipsoid has no counterpart.
pub fn collider_shape_msg(shape: &ColliderShape, scale: &[i64; 3]) -> (r: Option<ColliderShapeMsg>)
    ensures
        r == shape_of(*shape, *scale),
{
    let sx: u64 = unsigned(scale[0]);
    let sy: u64 = unsigned(scale[1]);
    let sz: u64 = unsigned(scale[2]);
    let radial: u64 = max_of(sx, sz);
    match *shape {
        ColliderShape::Box { half_extents } => Some(
            ColliderShapeMsg::Cuboid {
                half_extents: [
                    fold(half_extents[0], sx),
                    fold(half_extents[1], sy),
                    fold(half_extents[2], sz),
                ],
            },
        ),
        ColliderShape::Sphere { radius } => Some(
            ColliderShapeMsg::Ball { radius: fold(radius, max_of(max_of(sx, sy), sz)) },
        ),
        ColliderShape::Capsule { half_height, radius } => Some(
            ColliderShapeMsg::Capsule {
                half_height: fold(half_height, sy),
                radius: fold(radius, radial),
            },
        ),
        ColliderShape::Cylinder { half_height, radius } => Some(
            ColliderShapeMsg::Cylinder {
                half_height: fold(half_height, sy),
                radius: fold(radius, radial),
            },
        ),
        ColliderShape::Cone { half_height, radius } => Some(
            ColliderShapeMsg::Cone {
                half_height: fold(half_height, sy),
                radius: fold(radius, radial),
            },
        ),
        ColliderShape::Ellipsoid { .. } => None,
    }
}

/// The physics of a scene: its colliders in world space, where the ball starts, and the scale
/// at which the ball's mesh is drawn.
pub struct Derived {
    pub colliders: Vec<ColliderInit>,
    pub spawn: [i64; 3],
    pub ball_scale: i64,
}

/// What a [`Derived`] holds.
pub struct DerivedView {
    pub colliders: Seq<ColliderInit>,
    pub spawn: [i64; 3],
    pub ball_scale: i64,
}

impl View for Derived {
    type V = DerivedView;

    open spec fn view(&self) -> DerivedView {
        DerivedView {
            colliders: self.colliders@,
            spawn: self.spawn,
            ball_scale: self.ball_scale,
        }
    }
}

/// Where the ball starts in a scene without a collider for it.
pub const DEFAULT_SPAWN: [i64; 3] = [0, 600_000, 0];

/// A node's place in the world: what its own place in its parent and those of all the nodes
/// above it amount to (millionths).
#[derive(Debug, Clone, Copy, PartialEq, Eq)]
pub struct Place {
    pub scale: [i64; 3],
    pub rotation: [i64; 4],
    pub translation: [i64; 3],
}

/// The gameplay role of a collider: anything in the ball's tree is the ball, a node with the
/// word for it in its name is a wall, and the rest is floor.
pub open spec fn role_of(name: Seq<char>, in_ball: bool) -> u8 {
    if in_ball {
        ROLE_BALL
    } else if occurs(name, "Wall"@) {
        ROLE_WALL
    } else {
        ROLE_FLOOR
    }
}

/// What one node adds. A collider in the ball's tree also moves the spawn point to itself.
pub open spec fn with_node(
    d: DerivedView,
    n: NodeView,
    place: Place,
    in_ball: bool,
    mesh: u128,
) -> DerivedView {
    let scaled = DerivedView {
        ball_scale: if n.id == mesh {
            place.scale@[0]
        } else {
            d.ball_scale
        },
        ..d
    };
    match collider_in(n) {
        Some(shape) => DerivedView {
            spawn: if in_ball {
                place.translation
            } else {
                d.spawn
            },
            colliders: match shape_of(shape, place.scale) {
                Some(msg) => d.colliders.push(
                    ColliderInit {
                        shape: msg,
                        translation: place.translation,
                        rotation: place.rotation,
                        dynamic: in_ball,
                        role: role_of(n.name, in_ball),
                    },
                ),
                None => d.colliders,
            },
            ..scaled
        },
        None => scaled,
    }
}

/// Whether the last of some nodes belongs to the ball's tree: the last root among them is named
/// as the ball.
pub open spec fn in_ball(ns: Seq<NodeView>) -> bool
    decreases ns.len(),
{
    if ns.len() == 0 {
        false
    } else if ns.last().depth == 0 {
        is_ball(ns.last())
    } else {
        in_ball(ns.drop_last())
    }
}

/// What nodes add in their places, in order.
pub open spec fn with_nodes(ns: Seq<NodeView>, places: Seq<Place>, mesh: u128) -> DerivedView
    decreases ns.len(),
{
    if ns.len() == 0 {
        nothing()
    } else {
        with_node(
            with_nodes(ns.drop_last(), places, mesh),
            ns.last(),
            places[ns.len() - 1],
            in_ball(ns),
            mesh,
        )
    }
}

/// The physics of nothing.
pub open spec fn nothing() -> DerivedView {
    DerivedView { colliders: seq![], spawn: DEFAULT_SPAWN, ball_scale: 1_000_000 }
}

fn role(name: &str, in_ball: bool) -> (r: u8)
    ensures
        r == role_of(name@, in_ball),
{
    if in_ball {
        ROLE_BALL
    } else if contains(name, "Wall") {
        ROLE_WALL
    } else {
        ROLE_FLOOR
    }
}

/// Adds one node.
fn add_node(node: &FileNode, place: &Place, ball: bool, ball_mesh_id: u128, derived: &mut Derived)
    ensures
        final(derived)@ == with_node(old(derived)@, node@, *place, ball, ball_mesh_id),
{
    if node.id == ball_mesh_id {
        derived.ball_scale = place.scale[0];
    }
    if let Some(shape) = collider_of(node) {
        if ball {
            derived.spawn = place.translation;
        }
        if let Some(msg) = collider_shape_msg(&shape, &place.scale) {
            derived.colliders.push(
                ColliderInit {
                    shape: msg,
                    translation: place.translation,
                    rotation: place.rotation,
                    dynamic: ball,
                    role: role(node.name.as_str(), ball),
                },
            );
        }
    }
}

/// Takes the physics out of a scene's nodes in their places, given the id of the ball's mesh
/// node.
pub fn derive_physics(nodes: &Vec<FileNode>, places: &Vec<Place>, ball_mesh_id: u128) -> (r:
    Derived)
    requires
        places@.len() == nodes@.len(),
    ensures
        r@ == with_nodes(views(nodes@), places@, ball_mesh_id),
{
    let ghost ns = views(nodes@);
    let mut derived = Derived {
        colliders: Vec::new(),
        spawn: DEFAULT_SPAWN,
        ball_scale: 1_000_000,
    };
    let mut ball: bool = false;
    assert(derived@.colliders =~= seq![]);
    assert(ns.take(0) =~= seq![]);
    let mut i: usize = 0;
    while i < nodes.len()
        invariant
            i <= nodes@.len(),
            places@.len() == nodes@.len(),
            ns == views(nodes@),
            ball == in_ball(ns.take(i as int)),
            derived@ == with_nodes(ns.take(i as int), places@, ball_mesh_id),
        decreases nodes@.len() - i,
    {
        proof {
            assert(ns.take(i + 1).drop_last() =~= ns.take(i as int));
            assert(ns.take(i + 1).last() == nodes@[i as int]@);
        }
        if nodes[i].depth == 0 {
            ball = same(nodes[i].name.as_str(), "Ball");
        }
        add_node(&nodes[i], &places[i], ball, ball_mesh_id, &mut derived);
        i = i + 1;
    }
    assert(ns.take(i as int) =~= ns);
    derived
}

/// Whether a collider is a box of floor.
pub open spec fn is_floor_box(c: ColliderInit) -> bool {
    !c.dynamic && c.role == ROLE_FLOOR && c.shape is Cuboid
}

/// The first box of floor from `from` on.
pub open spec fn floor_position(colliders: Seq<ColliderInit>, from: int) -> Option<int>
    decreases colliders.len() - from,
{
    if from < 0 || from >= colliders.len() {
        None
    } else if is_floor_box(colliders[from]) {
        Some(from)
    } else {
        floor_position(colliders, from + 1)
    }
}

/// The half extents and the translation of the first box of floor.
pub open spec fn tabletop(colliders: Seq<ColliderInit>) -> Option<([i64; 3], [i64; 3])> {
    match floor_position(colliders, 0) {
        Some(i) => Some((colliders[i].shape->Cuboid_half_extents, colliders[i].translation)),
        None => None,
    }
}

/// The tabletop: the half extents and the translation of the first box of floor.
pub fn floor_box(colliders: &Vec<ColliderInit>) -> (r: Option<([i64; 3], [i64; 3])>)
    ensures
        match floor_position(colliders@, 0) {
            Some(i) => r == Some(
                (colliders@[i].shape->Cuboid_half_extents, colliders@[i].translation),
            ),
            None => r is None,
        },
        r == tabletop(colliders@),
{
    let mut i: usize = 0;
    while i < colliders.len()
        invariant
            i <= colliders@.len(),
            floor_position(colliders@, 0) == floor_position(colliders@, i as int),
        decreases colliders@.len() - i,
    {
        let c = &colliders[i];
        if !c.dynamic && c.role == ROLE_FLOOR {
            if let ColliderShapeMsg::Cuboid { half_extents } = c.shape {
                return Some((half_extents, c.translation));
            }
        }
        i = i + 1;
    }
    None
}

// ---------------------------------------------------------------------------------------
// Laws

/// A collider's role agrees with how it moves: the ball is dynamic, walls and floor are not.
pub open spec fn role_fits(c: ColliderInit) -> bool {
    &&& c.dynamic <==> c.role == ROLE_BALL
    &&& c.role == ROLE_BALL || c.role == ROLE_WALL || c.role == ROLE_FLOOR
}

/// In any scene the ball's colliders are the dynamic ones, and every other is wall or floor.
pub proof fn roles_fit(ns: Seq<NodeView>, places: Seq<Place>, mesh: u128)
    ensures
        forall|i: int|
            0 <= i < with_nodes(ns, places, mesh).colliders.len() ==> role_fits(
                #[trigger] with_nodes(ns, places, mesh).colliders[i],
            ),
    decreases ns.len(),
{
    if ns.len() > 0 {
        roles_fit(ns.drop_last(), places, mesh);
        let rest = with_nodes(ns.drop_last(), places, mesh).colliders;
        let all = with_nodes(ns, places, mesh).colliders;
        assert forall|i: int| 0 <= i < all.len() implies role_fits(#[trigger] all[i]) by {
            if i < rest.len() {
                assert(all[i] == rest[i]);
            } else {
                assert(all[i].role == role_of(ns.last().name, in_ball(ns)));
            }
        }
    }
}

/// A scene in which no root is named as the ball has no dynamic collider, and the ball's
/// spawn point stays at its default.
pub proof fn no_ball_no_spawn(ns: Seq<NodeView>, places: Seq<Place>, mesh: u128)
    requires
        forall|i: int| 0 <= i < ns.len() ==> !is_ball(#[trigger] ns[i]),
    ensures
        !in_ball(ns),
        with_nodes(ns, places, mesh).spawn == DEFAULT_SPAWN,
        forall|i: int|
            0 <= i < with_nodes(ns, places, mesh).colliders.len() ==> !(
            #[trigger] with_nodes(ns, places, mesh).colliders[i]).dynamic,
    decreases ns.len(),
{
    if ns.len() > 0 {
        let rest = ns.drop_last();
        assert forall|i: int| 0 <= i < rest.len() implies !is_ball(#[trigger] rest[i]) by {
            assert(rest[i] == ns[i]);
        }
        no_ball_no_spawn(rest, places, mesh);
        assert(!is_ball(ns[ns.len() - 1]));
    }
}

/// The mesh that is driven is the first of the ball's: it stands in the tree of the first root
/// named as the ball, carries a mesh, and no node before it in that tree does.
pub proof fn the_driven_mesh_is_the_balls_first(ns: Seq<NodeView>) -> (at: (int, int))
    requires
        mesh_of(ns) is Ok,
    ensures
        0 <= at.0 <= at.1 < ns.len(),
        is_ball(ns[at.0]),
        forall|j: int| 0 <= j < at.0 ==> !is_ball(#[trigger] ns[j]),
        forall|j: int| at.0 < j <= at.1 ==> (#[trigger] ns[j]).depth > 0,
        is_mesh(ns[at.1]),
        ns[at.1].id == mesh_of(ns)->Ok_0,
        forall|j: int| at.0 <= j < at.1 ==> !is_mesh(#[trigger] ns[j]),
{
    ball_at_is_first(ns, 0);
    let b = ball_at(ns, 0)->0;
    tree_end_is_behind(ns, b, b + 1);
    let end = tree_end(ns, b, b + 1);
    let m = first_mesh_is_first(ns, b, end);
    (b, m)
}

proof fn ball_at_is_first(ns: Seq<NodeView>, from: int)
    requires
        0 <= from,
        ball_at(ns, from) is Some,
    ensures
        from <= ball_at(ns, from)->0 < ns.len(),
        is_ball(ns[ball_at(ns, from)->0]),
        forall|j: int| from <= j < ball_at(ns, from)->0 ==> !is_ball(#[trigger] ns[j]),
    decreases ns.len() - from,
{
    if !is_ball(ns[from]) {
        ball_at_is_first(ns, from + 1);
    }
}

/// The first mesh of a stretch is the first: it is a mesh node's id, and no node before that one
/// carries a mesh.
pub proof fn first_mesh_is_first(ns: Seq<NodeView>, from: int, end: int) -> (at: int)
    requires
        first_mesh(ns, from, end) is Some,
    ensures
        from <= at < end,
        is_mesh(ns[at]),
        ns[at].id == first_mesh(ns, from, end)->0,
        forall|j: int| from <= j < at ==> !is_mesh(#[trigger] ns[j]),
    decreases end - from,
{
    if is_mesh(ns[from]) {
        from
    } else {
        first_mesh_is_first(ns, from + 1, end)
    }
}

/// The id of the first mesh node among trees, depth first.
pub open spec fn first_mesh_among(ts: Seq<TreeView>) -> Option<u128>
    decreases ts,
{
    if ts.len() == 0 {
        None
    } else {
        match first_mesh_among(ts.drop_last()) {
            Some(id) => Some(id),
            None => if is_mesh(node_at(ts.last(), 0)) {
                Some(ts.last().id)
            } else {
                first_mesh_among(ts.last().children)
            },
        }
    }
}

/// The first tree from `from` on whose root is named as the ball.
pub open spec fn ball_tree(ts: Seq<TreeView>, from: int) -> Option<int>
    decreases ts.len() - from,
{
    if from < 0 || from >= ts.len() {
        None
    } else if ts[from].name == ball_name() {
        Some(from)
    } else {
        ball_tree(ts, from + 1)
    }
}

/// The mesh node that the physics moves, looked for in the tree itself.
pub open spec fn mesh_in_trees(ts: Seq<TreeView>) -> Result<u128, SceneError> {
    match ball_tree(ts, 0) {
        None => Err(SceneError::NoBall),
        Some(k) => match first_mesh_among(seq![ts[k]]) {
            None => Err(SceneError::NoMesh),
            Some(id) => Ok(id),
        },
    }
}

proof fn nothing_is_less_deep(ts: Seq<TreeView>, depth: nat)
    ensures
        forall|i: int|
            0 <= i < flattened(ts, depth).len() ==> (#[trigger] flattened(ts, depth)[i]).depth
                >= depth,
    decreases ts,
{
    if ts.len() > 0 {
        nothing_is_less_deep(ts.drop_last(), depth);
        nothing_is_less_deep(ts.last().children, depth + 1);
        let (a, b) = (flattened(ts.drop_last(), depth), flattened(ts.last().children, depth + 1));
        assert forall|i: int| 0 <= i < flattened(ts, depth).len() implies (#[trigger] flattened(
            ts,
            depth,
        )[i]).depth >= depth by {
            if i < a.len() {
                assert(flattened(ts, depth)[i] == a[i]);
            } else if i > a.len() {
                assert(flattened(ts, depth)[i] == b[i - a.len() - 1]);
            }
        }
    }
}

proof fn lists_of_two(a: Seq<TreeView>, b: Seq<TreeView>, depth: nat)
    ensures
        flattened(a + b, depth) == flattened(a, depth) + flattened(b, depth),
    decreases b.len(),
{
    if b.len() == 0 {
        assert(a + b =~= a);
        assert(flattened(a, depth) + flattened(b, depth) =~= flattened(a, depth));
    } else {
        lists_of_two(a, b.drop_last(), depth);
        assert((a + b).drop_last() =~= a + b.drop_last());
        assert(flattened(a + b, depth) =~= flattened(a, depth) + flattened(b, depth));
    }
}

proof fn list_of_one(t: TreeView, depth: nat)
    ensures
        flattened(seq![t], depth) == seq![node_at(t, depth)] + flattened(t.children, depth + 1),
{
    assert(seq![t].drop_last() =~= Seq::<TreeView>::empty());
    assert(flattened(Seq::<TreeView>::empty(), depth).len() == 0);
    assert(seq![t].last() == t);
    assert(flattened(seq![t], depth) =~= seq![node_at(t, depth)] + flattened(
        t.children,
        depth + 1,
    ));
}

/// A list of trees around one of them: what is before it, the tree, and what comes after.
proof fn list_around(ts: Seq<TreeView>, depth: nat, k: int)
    requires
        0 <= k < ts.len(),
    ensures
        flattened(ts, depth) == flattened(ts.take(k), depth) + (seq![node_at(ts[k], depth)]
            + flattened(ts[k].children, depth + 1)) + flattened(ts.skip(k + 1), depth),
        flattened(ts.take(k + 1), depth) == flattened(ts.take(k), depth) + (seq![
            node_at(ts[k], depth),
        ] + flattened(ts[k].children, depth + 1)),
        k + 1 < ts.len() ==> flattened(ts.skip(k + 1), depth).len() > 0 && flattened(
            ts.skip(k + 1),
            depth,
        )[0] == node_at(ts[k + 1], depth),
        k + 1 == ts.len() ==> flattened(ts.skip(k + 1), depth).len() == 0,
{
    list_of_one(ts[k], depth);
    lists_of_two(ts.take(k), seq![ts[k]], depth);
    assert(ts.take(k) + seq![ts[k]] =~= ts.take(k + 1));
    lists_of_two(ts.take(k + 1), ts.skip(k + 1), depth);
    assert(ts.take(k + 1) + ts.skip(k + 1) =~= ts);
    if k + 1 < ts.len() {
        let rest = ts.skip(k + 1);
        list_of_one(rest[0], depth);
        lists_of_two(seq![rest[0]], rest.skip(1), depth);
        assert(seq![rest[0]] + rest.skip(1) =~= rest);
    } else {
        assert(ts.skip(k + 1) =~= seq![]);
    }
}

proof fn mesh_of_two_stretches(ns: Seq<NodeView>, from: int, mid: int, end: int)
    requires
        from <= mid <= end,
    ensures
        first_mesh(ns, from, end) == (match first_mesh(ns, from, mid) {
            Some(id) => Some(id),
            None => first_mesh(ns, mid, end),
        }),
    decreases mid - from,
{
    if from < mid && !is_mesh(ns[from]) {
        mesh_of_two_stretches(ns, from + 1, mid, end);
    }
}

proof fn meshes_of_a_list(ns: Seq<NodeView>, from: int, ts: Seq<TreeView>, depth: nat)
    requires
        0 <= from,
        from + flattened(ts, depth).len() <= ns.len(),
        ns.subrange(from, from + flattened(ts, depth).len()) == flattened(ts, depth),
    ensures
        first_mesh(ns, from, from + flattened(ts, depth).len()) == first_mesh_among(ts),
    decreases ts,
{
    if ts.len() > 0 {
        let all = flattened(ts, depth);
        let a = flattened(ts.drop_last(), depth);
        let b = flattened(ts.last().children, depth + 1);
        let (mid, end) = (from + a.len(), from + all.len());
        let part = ns.subrange(from, end);
        assert(ns.subrange(from, mid) =~= a) by {
            assert forall|i: int| 0 <= i < a.len() implies ns[from + i] == a[i] by {
                assert(part[i] == all[i]);
            }
        }
        assert(ns[mid] == node_at(ts.last(), depth)) by {
            assert(part[a.len() as int] == all[a.len() as int]);
        }
        assert(ns.subrange(mid + 1, end) =~= b) by {
            assert forall|i: int| 0 <= i < b.len() implies ns[mid + 1 + i] == b[i] by {
                assert(part[a.len() + 1 + i] == all[a.len() + 1 + i]);
            }
        }
        meshes_of_a_list(ns, from, ts.drop_last(), depth);
        meshes_of_a_list(ns, mid + 1, ts.last().children, depth + 1);
        mesh_of_two_stretches(ns, from, mid, end);
    }
}

proof fn no_ball_between(ns: Seq<NodeView>, from: int, to: int)
    requires
        0 <= from <= to <= ns.len(),
        forall|j: int| from <= j < to ==> !is_ball(#[trigger] ns[j]),
    ensures
        ball_at(ns, from) == ball_at(ns, to),
    decreases to - from,
{
    if from < to {
        assert(!is_ball(ns[from]));
        no_ball_between(ns, from + 1, to);
    }
}

/// Where a tree's root stands in the list of trees.
pub open spec fn root_at(ts: Seq<TreeView>, k: int) -> int {
    flattened(ts.take(k), 0).len() as int
}

proof fn balls_of_a_list(ts: Seq<TreeView>, k: int)
    requires
        0 <= k <= ts.len(),
    ensures
        ball_at(flattened(ts, 0), root_at(ts, k)) == (match ball_tree(ts, k) {
            None => None,
            Some(j) => Some(root_at(ts, j)),
        }),
        ball_tree(ts, k) matches Some(j) ==> k <= j < ts.len(),
    decreases ts.len() - k,
{
    let ns = flattened(ts, 0);
    if k == ts.len() {
        assert(ts.take(k) =~= ts);
    } else {
        balls_of_a_list(ts, k + 1);
        list_around(ts, 0, k);
        let (p, below) = (root_at(ts, k), flattened(ts[k].children, 1));
        assert(ns[p] == node_at(ts[k], 0));
        assert(root_at(ts, k + 1) == p + 1 + below.len());
        if ts[k].name != ball_name() {
            nothing_is_less_deep(ts[k].children, 1);
            assert forall|j: int| p <= j < p + 1 + below.len() implies !is_ball(
                #[trigger] ns[j],
            ) by {
                if j > p {
                    assert(ns[j] == below[j - p - 1]);
                }
            }
            no_ball_between(ns, p, root_at(ts, k + 1));
        }
    }
}

/// Looking for the mesh in the list is looking for it in the tree: in the first tree whose root
/// is named as the ball, each node before its children and they in their order.
pub proof fn the_list_is_searched_as_the_tree(ts: Seq<TreeView>)
    ensures
        mesh_of(flattened(ts, 0)) == mesh_in_trees(ts),
{
    let ns = flattened(ts, 0);
    balls_of_a_list(ts, 0);
    assert(ts.take(0) =~= seq![]);
    if ball_tree(ts, 0) is Some {
        let k = ball_tree(ts, 0)->0;
        let p = root_at(ts, k);
        list_around(ts, 0, k);
        list_of_one(ts[k], 0);
        nothing_is_less_deep(ts[k].children, 1);
        let (tree, below) = (flattened(seq![ts[k]], 0), flattened(ts[k].children, 1));
        let end = p + tree.len();
        assert(ns[p] == node_at(ts[k], 0));
        assert forall|j: int| p < j < end implies ns[j].depth > 0 by {
            assert(ns[j] == below[j - p - 1]);
        }
        if end < ns.len() {
            assert(ns[end] == flattened(ts.skip(k + 1), 0)[0]);
        }
        tree_end_is_behind(ns, p, p + 1);
        let t = tree_end(ns, p, p + 1);
        assert(t == end);
        assert(ns.subrange(p, end) =~= tree);
        meshes_of_a_list(ns, p, seq![ts[k]], 0);
    }
}

proof fn nothing_above_between(ns: Seq<NodeView>, at: int, from: int, before: int)
    requires
        0 <= from <= before <= ns.len(),
        forall|j: int| from <= j < before ==> (#[trigger] ns[j]).depth >= ns[at].depth,
    ensures
        above_in(ns, at, before) == above_in(ns, at, from),
    decreases before - from,
{
    if from < before {
        assert(ns[before - 1].depth >= ns[at].depth);
        nothing_above_between(ns, at, from, before - 1);
    }
}

/// In a list of trees a node's child finds that node as its parent, whatever else stands in the
/// list before the node and after its tree.
pub proof fn children_find_their_parent(
    before: Seq<NodeView>,
    t: TreeView,
    depth: nat,
    after: Seq<NodeView>,
    k: int,
)
    requires
        0 <= k < t.children.len(),
    ensures
        ({
            let ns = before + flattened(seq![t], depth) + after;
            let at = before.len() + 1 + flattened(t.children.take(k), depth + 1).len();
            &&& ns[at as int] == node_at(t.children[k], depth + 1)
            &&& above_in(ns, at as int, at as int) == Some(before.len() as int)
        }),
{
    let ns = before + flattened(seq![t], depth) + after;
    let front = flattened(t.children.take(k), depth + 1);
    let at = before.len() + 1 + front.len();
    list_of_one(t, depth);
    list_around(t.children, depth + 1, k);
    nothing_is_less_deep(t.children.take(k), depth + 1);
    let below = flattened(t.children, depth + 1);
    assert(ns[before.len() as int] == node_at(t, depth));
    assert(below[front.len() as int] == node_at(t.children[k], depth + 1));
    assert(ns[at as int] == below[front.len() as int]);
    assert forall|j: int| before.len() + 1 <= j < at implies (#[trigger] ns[j]).depth
        >= ns[at as int].depth by {
        assert(ns[j] == below[j - before.len() - 1]);
        assert(ns[j] == front[j - before.len() - 1]);
    }
    nothing_above_between(ns, at as int, before.len() as int + 1, at as int);
}

/// A root has no parent.
pub proof fn roots_have_no_parent(ts: Seq<TreeView>, k: int)
    requires
        0 <= k < ts.len(),
    ensures
        flattened(ts, 0)[root_at(ts, k)] == node_at(ts[k], 0),
        above_in(flattened(ts, 0), root_at(ts, k), root_at(ts, k)) is None,
{
    list_around(ts, 0, k);
    nothing_above_between(flattened(ts, 0), root_at(ts, k), 0, root_at(ts, k));
}

/// A node belongs to the ball exactly where the root of its tree is named as the ball.
pub proof fn a_tree_is_the_balls_by_its_root(before: Seq<NodeView>, t: TreeView, n: nat)
    requires
        1 <= n <= flattened(seq![t], 0).len(),
    ensures
        in_ball(before + flattened(seq![t], 0).take(n as int)) == (t.name == ball_name()),
    decreases n,
{
    let all = flattened(seq![t], 0);
    let list = before + all.take(n as int);
    list_of_one(t, 0);
    assert(list.last() == all[n - 1]);
    if n > 1 {
        nothing_is_less_deep(t.children, 1);
        assert(all[n - 1] == flattened(t.children, 1)[n - 2]);
        a_tree_is_the_balls_by_its_root(before, t, (n - 1) as nat);
        assert(list.drop_last() =~= before + all.take(n - 1));
    }
}

/// Mirroring a node changes no collider: only the size of its scale counts.
pub proof fn mirroring_keeps_shapes(shape: ColliderShape, a: [i64; 3], b: [i64; 3])
    requires
        forall|i: int|
            0 <= i < 3 ==> magnitude(#[trigger] a@[i] as int) == magnitude(b@[i] as int),
    ensures
        shape_of(shape, a) == shape_of(shape, b),
{
    assert(magnitude(a@[0] as int) == magnitude(b@[0] as int));
    assert(magnitude(a@[1] as int) == magnitude(b@[1] as int));
    assert(magnitude(a@[2] as int) == magnitude(b@[2] as int));
}

/// A node of unit scale keeps the shape it was given.
pub proof fn unit_scale_keeps_extents(extent: i64)
    ensures
        folded(extent, 1_000_000) == extent,
{
    let e = extent as int;
    assert(e * 1_000_000 == 1_000_000 * e) by (nonlinear_arith);
    assert((2 * (1_000_000 * e) + 1_000_000) / 2_000_000 == e);
}

} // verus!
