//! What holds of the physics that is taken out of a scene, told by the scene's nodes and their
//! places alone.

use vstd::prelude::*;

use crate::protocol::{ColliderInit, ColliderShapeMsg, ROLE_BALL, ROLE_FLOOR, ROLE_WALL};
use crate::scene::{
    collider_in, floor_position, folded, in_ball, is_floor_box, is_mesh, node_at, shape_of,
    tabletop, with_nodes, ColliderShape, NodeTag, NodeView, Place, TreeView,
};
use crate::text::occurs;
use crate::units::{div_round_is_nearest, micros_of};

verus! {

/// Whether the engine has a shape for what a node carries.
pub open spec fn solid(tag: NodeTag) -> bool {
    tag == NodeTag::Box || tag == NodeTag::Sphere || tag == NodeTag::Capsule || tag
        == NodeTag::Cylinder || tag == NodeTag::Cone
}

/// Whether `r` is the root of the tree that the node at `i` stands in.
pub open spec fn is_root_of(ns: Seq<NodeView>, i: int, r: int) -> bool {
    &&& 0 <= r <= i < ns.len()
    &&& ns[r].depth == 0
    &&& forall|j: int| r < j <= i ==> (#[trigger] ns[j]).depth > 0
}

/// Whether the node at `i` stands in a tree whose root is named as the ball.
pub open spec fn is_the_balls(ns: Seq<NodeView>, i: int) -> bool {
    exists|r: int| #[trigger] is_root_of(ns, i, r) && ns[r].name == "Ball"@
}

/// Whether an extent has come out as it should at a scale: to the nearest millionth where 64 bits
/// hold it, and else as near as they reach.
pub open spec fn grown(result: i64, extent: i64, scale: i64) -> bool {
    let full = extent * (if scale < 0 {
        -scale
    } else {
        scale as int
    });
    &&& i64::MIN * 1_000_000 <= full <= i64::MAX * 1_000_000 ==> -1_000_000 <= 2 * (result
        * 1_000_000 - full) <= 1_000_000
    &&& full > i64::MAX * 1_000_000 ==> result == i64::MAX
    &&& full < i64::MIN * 1_000_000 ==> result == i64::MIN
}

/// Whether one scale is at least as large as another, whatever their signs.
pub open spec fn as_large(a: i64, b: i64) -> bool {
    a >= b && a >= -b || -a >= b && -a >= -b
}

/// Whether a radius has come out as it should at the scales across it: by the larger one.
pub open spec fn widened(result: i64, radius: i64, a: i64, b: i64) -> bool {
    &&& as_large(a, b) ==> grown(result, radius, a)
    &&& as_large(b, a) ==> grown(result, radius, b)
}

/// Whether a shape is what a node of this kind and with these numbers has at a scale: of the
/// same kind, each side of a box and each height grown along its own axis, and each radius by
/// the largest scale across it.
pub open spec fn shaped(
    shape: ColliderShapeMsg,
    tag: NodeTag,
    a: i64,
    b: i64,
    c: i64,
    scale: [i64; 3],
) -> bool {
    let (sx, sy, sz) = (scale@[0], scale@[1], scale@[2]);
    match shape {
        ColliderShapeMsg::Cuboid { half_extents: h } => tag == NodeTag::Box && grown(h@[0], a, sx)
            && grown(h@[1], b, sy) && grown(h@[2], c, sz),
        ColliderShapeMsg::Ball { radius } => {
            &&& tag == NodeTag::Sphere
            &&& as_large(sx, sy) && as_large(sx, sz) ==> grown(radius, a, sx)
            &&& as_large(sy, sx) && as_large(sy, sz) ==> grown(radius, a, sy)
            &&& as_large(sz, sx) && as_large(sz, sy) ==> grown(radius, a, sz)
        },
        ColliderShapeMsg::Capsule { half_height, radius } => tag == NodeTag::Capsule && grown(
            half_height,
            a,
            sy,
        ) && widened(radius, b, sx, sz),
        ColliderShapeMsg::Cylinder { half_height, radius } => tag == NodeTag::Cylinder && grown(
            half_height,
            a,
            sy,
        ) && widened(radius, b, sx, sz),
        ColliderShapeMsg::Cone { half_height, radius } => tag == NodeTag::Cone && grown(
            half_height,
            a,
            sy,
        ) && widened(radius, b, sx, sz),
    }
}

/// Whether a collider is the one of the node at `i`.
spec fn stands_for(ns: Seq<NodeView>, places: Seq<Place>, c: ColliderInit, i: int) -> bool {
    let (n, p) = (ns[i], places[i]);
    &&& c.translation@ == p.translation@
    &&& c.rotation@ == p.rotation@
    &&& c.dynamic == is_the_balls(ns, i)
    &&& c.role == (if is_the_balls(ns, i) {
        ROLE_BALL
    } else if occurs(n.name, "Wall"@) {
        ROLE_WALL
    } else {
        ROLE_FLOOR
    })
    &&& shaped(
        c.shape,
        n.tag,
        micros_of(n.extents[0]),
        micros_of(n.extents[1]),
        micros_of(n.extents[2]),
        p.scale,
    )
}

proof fn a_longer_list_has_the_same_roots(ns: Seq<NodeView>, i: int)
    requires
        0 <= i < ns.len() - 1,
    ensures
        is_the_balls(ns.drop_last(), i) == is_the_balls(ns, i),
{
    let rest = ns.drop_last();
    assert forall|r: int| #[trigger] is_root_of(rest, i, r) == is_root_of(ns, i, r) by {
        if is_root_of(rest, i, r) {
            assert forall|j: int| r < j <= i implies (#[trigger] ns[j]).depth > 0 by {
                assert(rest[j] == ns[j]);
            }
        }
        if is_root_of(ns, i, r) {
            assert forall|j: int| r < j <= i implies (#[trigger] rest[j]).depth > 0 by {
                assert(rest[j] == ns[j]);
            }
        }
    }
    if is_the_balls(ns, i) {
        let r = choose|r: int| #[trigger] is_root_of(ns, i, r) && ns[r].name == "Ball"@;
        assert(is_root_of(rest, i, r));
    }
    if is_the_balls(rest, i) {
        let r = choose|r: int| #[trigger] is_root_of(rest, i, r) && rest[r].name == "Ball"@;
        assert(is_root_of(ns, i, r));
    }
}

proof fn the_last_is_the_balls_by_its_root(ns: Seq<NodeView>)
    ensures
        in_ball(ns) <==> ns.len() > 0 && is_the_balls(ns, ns.len() - 1),
    decreases ns.len(),
{
    if ns.len() > 0 {
        let (rest, i) = (ns.drop_last(), ns.len() - 1);
        if ns.last().depth == 0 {
            assert(is_root_of(ns, i, i));
            assert forall|r: int| #[trigger] is_root_of(ns, i, r) implies r == i by {
                if r < i {
                    assert(ns[i].depth > 0);
                }
            }
        } else {
            the_last_is_the_balls_by_its_root(rest);
            if is_the_balls(ns, i) {
                let r = choose|r: int| #[trigger] is_root_of(ns, i, r) && ns[r].name == "Ball"@;
                assert(r < i);
                assert forall|j: int| r < j <= i - 1 implies (#[trigger] rest[j]).depth > 0 by {
                    assert(rest[j] == ns[j]);
                }
                assert(is_root_of(rest, i - 1, r));
            }
            if rest.len() > 0 && is_the_balls(rest, i - 1) {
                let r = choose|r: int|
                    #[trigger] is_root_of(rest, i - 1, r) && rest[r].name == "Ball"@;
                assert forall|j: int| r < j <= i implies (#[trigger] ns[j]).depth > 0 by {
                    if j < i {
                        assert(rest[j] == ns[j]);
                    }
                }
                assert(is_root_of(ns, i, r));
            }
        }
    }
}

proof fn folding_grows(extent: i64, scale: i64)
    ensures
        grown(
            folded(
                extent,
                if scale < 0 {
                    -scale
                } else {
                    scale as int
                },
            ),
            extent,
            scale,
        ),
{
    let s = if scale < 0 {
        -scale
    } else {
        scale as int
    };
    div_round_is_nearest(extent * s, 1_000_000);
}

/// A collider at a scale keeps its kind and grows in size: a box along each axis by the scale of
/// that axis, a height by the vertical scale, and a radius by the largest scale across it. There is
/// none for an ellipsoid.
pub proof fn shapes_grow_with_their_scale(shape: ColliderShape, scale: [i64; 3])
    ensures
        match shape {
            ColliderShape::Box { half_extents: h } => shape_of(shape, scale) matches Some(msg)
                && shaped(msg, NodeTag::Box, h@[0], h@[1], h@[2], scale),
            ColliderShape::Sphere { radius } => shape_of(shape, scale) matches Some(msg) && shaped(
                msg,
                NodeTag::Sphere,
                radius,
                0,
                0,
                scale,
            ),
            ColliderShape::Capsule { half_height, radius } => shape_of(
                shape,
                scale,
            ) matches Some(msg) && shaped(msg, NodeTag::Capsule, half_height, radius, 0, scale),
            ColliderShape::Cylinder { half_height, radius } => shape_of(
                shape,
                scale,
            ) matches Some(msg) && shaped(msg, NodeTag::Cylinder, half_height, radius, 0, scale),
            ColliderShape::Cone { half_height, radius } => shape_of(
                shape,
                scale,
            ) matches Some(msg) && shaped(msg, NodeTag::Cone, half_height, radius, 0, scale),
            ColliderShape::Ellipsoid { .. } => shape_of(shape, scale) is None,
        },
{
    let (x, y, z) = (scale@[0], scale@[1], scale@[2]);
    match shape {
        ColliderShape::Box { half_extents: h } => {
            folding_grows(h@[0], x);
            folding_grows(h@[1], y);
            folding_grows(h@[2], z);
        },
        ColliderShape::Sphere { radius } => {
            folding_grows(radius, x);
            folding_grows(radius, y);
            folding_grows(radius, z);
        },
        ColliderShape::Capsule { half_height, radius } => {
            folding_grows(half_height, y);
            folding_grows(radius, x);
            folding_grows(radius, z);
        },
        ColliderShape::Cylinder { half_height, radius } => {
            folding_grows(half_height, y);
            folding_grows(radius, x);
            folding_grows(radius, z);
        },
        ColliderShape::Cone { half_height, radius } => {
            folding_grows(half_height, y);
            folding_grows(radius, x);
            folding_grows(radius, z);
        },
        ColliderShape::Ellipsoid { .. } => {},
    }
}

/// A node's collider has the node's numbers, in millionths: three half extents, a radius, or a half
/// height and a radius. Nodes of other kinds have none.
pub proof fn colliders_have_their_nodes_numbers(n: NodeView)
    ensures
        ({
            let (a, b, c) = (
                micros_of(n.extents[0]),
                micros_of(n.extents[1]),
                micros_of(n.extents[2]),
            );
            match collider_in(n) {
                Some(ColliderShape::Box { half_extents: h }) => n.tag == NodeTag::Box && h@[0] == a
                    && h@[1] == b && h@[2] == c,
                Some(ColliderShape::Sphere { radius }) => n.tag == NodeTag::Sphere && radius == a,
                Some(ColliderShape::Capsule { half_height, radius }) => n.tag == NodeTag::Capsule
                    && half_height == a && radius == b,
                Some(ColliderShape::Cylinder { half_height, radius }) => n.tag == NodeTag::Cylinder
                    && half_height == a && radius == b,
                Some(ColliderShape::Cone { half_height, radius }) => n.tag == NodeTag::Cone
                    && half_height == a && radius == b,
                Some(ColliderShape::Ellipsoid { half_extents: h }) => n.tag == NodeTag::Ellipsoid
                    && h@[0] == a && h@[1] == b && h@[2] == c,
                None => !solid(n.tag) && n.tag != NodeTag::Ellipsoid,
            }
        }),
{
}

/// A listed node is the tree's own: its id, its name, its kind, its numbers and its place in its
/// parent, as deep as it stands. Three kinds of node carry a mesh.
pub proof fn listed_nodes_are_the_trees_own(t: TreeView, depth: nat)
    ensures
        node_at(t, depth).depth == depth,
        node_at(t, depth).id == t.id,
        node_at(t, depth).name == t.name,
        node_at(t, depth).tag == t.tag,
        node_at(t, depth).extents == t.extents,
        node_at(t, depth).local == t.local,
        is_mesh(node_at(t, depth)) <==> t.tag == NodeTag::Mesh || t.tag == NodeTag::SkinnedMesh
            || t.tag == NodeTag::ClusterMesh,
{
}

proof fn shapes_grow(n: NodeView, shape: ColliderShape, scale: [i64; 3])
    requires
        collider_in(n) == Some(shape),
    ensures
        shape_of(shape, scale) is Some <==> solid(n.tag),
        shape_of(shape, scale) matches Some(msg) ==> shaped(
            msg,
            n.tag,
            micros_of(n.extents[0]),
            micros_of(n.extents[1]),
            micros_of(n.extents[2]),
            scale,
        ),
{
    shapes_grow_with_their_scale(shape, scale);
}

proof fn colliders_follow_their_nodes(ns: Seq<NodeView>, places: Seq<Place>, mesh: u128) -> (at:
    Seq<int>)
    ensures
        at.len() == with_nodes(ns, places, mesh).colliders.len(),
        forall|k: int| 0 <= k < at.len() ==> 0 <= #[trigger] at[k] < ns.len(),
        forall|k: int, l: int| 0 <= k < l < at.len() ==> #[trigger] at[k] < #[trigger] at[l],
        forall|i: int| 0 <= i < ns.len() ==> (#[trigger] at.contains(i) <==> solid(ns[i].tag)),
        forall|k: int|
            0 <= k < at.len() ==> stands_for(
                ns,
                places,
                with_nodes(ns, places, mesh).colliders[k],
                #[trigger] at[k],
            ),
    decreases ns.len(),
{
    let all = with_nodes(ns, places, mesh).colliders;
    if ns.len() == 0 {
        assert(all =~= seq![]);
        seq![]
    } else {
        let (rest, last) = (ns.drop_last(), ns.len() - 1);
        let before = with_nodes(rest, places, mesh).colliders;
        let front = colliders_follow_their_nodes(rest, places, mesh);
        the_last_is_the_balls_by_its_root(ns);
        if collider_in(ns[last]) is Some {
            shapes_grow(ns[last], collider_in(ns[last])->0, places[last].scale);
        }
        let at = if solid(ns[last].tag) {
            front.push(last)
        } else {
            front
        };
        assert forall|i: int| 0 <= i < ns.len() implies (#[trigger] at.contains(i) <==> solid(
            ns[i].tag,
        )) by {
            if i < last {
                assert(rest[i] == ns[i]);
                assert(front.contains(i) <==> solid(rest[i].tag));
                if front.contains(i) {
                    let k = choose|k: int| 0 <= k < front.len() && front[k] == i;
                    assert(at[k] == i);
                }
                if at.contains(i) {
                    let k = choose|k: int| 0 <= k < at.len() && at[k] == i;
                    assert(k < front.len());
                    assert(front[k] == i);
                }
            } else {
                if at.contains(last) {
                    let k = choose|k: int| 0 <= k < at.len() && at[k] == last;
                    if k < front.len() {
                        assert(front[k] < rest.len());
                    }
                }
                if solid(ns[last].tag) {
                    assert(at[front.len() as int] == last);
                }
            }
        }
        assert forall|k: int| 0 <= k < at.len() implies stands_for(
            ns,
            places,
            all[k],
            #[trigger] at[k],
        ) by {
            if k < front.len() {
                assert(stands_for(rest, places, before[k], front[k]));
                a_longer_list_has_the_same_roots(ns, front[k]);
                assert(rest[front[k]] == ns[front[k]]);
                assert(all[k] == before[k]);
            }
        }
        at
    }
}

/// Every collider stands where its node does: each node that carries a shape the engine has gets
/// one collider, no other node gets one, they come in the order of the nodes, and each has its
/// node's translation and its node's rotation, component by component.
pub proof fn colliders_stand_where_their_nodes_do(
    ns: Seq<NodeView>,
    places: Seq<Place>,
    mesh: u128,
) -> (at: Seq<int>)
    requires
        places.len() == ns.len(),
    ensures
        at.len() == with_nodes(ns, places, mesh).colliders.len(),
        forall|k: int| 0 <= k < at.len() ==> 0 <= #[trigger] at[k] < ns.len(),
        forall|k: int, l: int| 0 <= k < l < at.len() ==> #[trigger] at[k] < #[trigger] at[l],
        forall|i: int| 0 <= i < ns.len() ==> (#[trigger] at.contains(i) <==> solid(ns[i].tag)),
        forall|k: int|
            0 <= k < at.len() ==> {
                let c = #[trigger] with_nodes(ns, places, mesh).colliders[k];
                let p = places[at[k]];
                &&& c.translation@[0] == p.translation@[0]
                &&& c.translation@[1] == p.translation@[1]
                &&& c.translation@[2] == p.translation@[2]
                &&& c.rotation@[0] == p.rotation@[0]
                &&& c.rotation@[1] == p.rotation@[1]
                &&& c.rotation@[2] == p.rotation@[2]
                &&& c.rotation@[3] == p.rotation@[3]
            },
{
    let at = colliders_follow_their_nodes(ns, places, mesh);
    assert forall|k: int| 0 <= k < at.len() implies {
        let c = #[trigger] with_nodes(ns, places, mesh).colliders[k];
        c.translation@ == places[at[k]].translation@ && c.rotation@ == places[at[k]].rotation@
    } by {
        assert(stands_for(ns, places, with_nodes(ns, places, mesh).colliders[k], at[k]));
    }
    at
}

/// Every collider has its node's kind and its node's size in the world, to the nearest millionth:
/// a box is grown along each axis by the scale of that axis, a height by the vertical scale, and a
/// radius by the largest scale across it. A mirrored node grows as one that is not.
pub proof fn colliders_have_their_nodes_shapes(
    ns: Seq<NodeView>,
    places: Seq<Place>,
    mesh: u128,
) -> (at: Seq<int>)
    requires
        places.len() == ns.len(),
    ensures
        at.len() == with_nodes(ns, places, mesh).colliders.len(),
        forall|k: int| 0 <= k < at.len() ==> 0 <= #[trigger] at[k] < ns.len(),
        forall|k: int, l: int| 0 <= k < l < at.len() ==> #[trigger] at[k] < #[trigger] at[l],
        forall|i: int| 0 <= i < ns.len() ==> (#[trigger] at.contains(i) <==> solid(ns[i].tag)),
        forall|k: int|
            0 <= k < at.len() ==> shaped(
                (#[trigger] with_nodes(ns, places, mesh).colliders[k]).shape,
                ns[at[k]].tag,
                micros_of(ns[at[k]].extents[0]),
                micros_of(ns[at[k]].extents[1]),
                micros_of(ns[at[k]].extents[2]),
                places[at[k]].scale,
            ),
{
    let at = colliders_follow_their_nodes(ns, places, mesh);
    assert forall|k: int| 0 <= k < at.len() implies shaped(
        (#[trigger] with_nodes(ns, places, mesh).colliders[k]).shape,
        ns[at[k]].tag,
        micros_of(ns[at[k]].extents[0]),
        micros_of(ns[at[k]].extents[1]),
        micros_of(ns[at[k]].extents[2]),
        places[at[k]].scale,
    ) by {
        assert(stands_for(ns, places, with_nodes(ns, places, mesh).colliders[k], at[k]));
    }
    at
}

/// Every collider plays its node's part: one in a tree whose root is named as the ball moves and
/// is a ball, whatever its own name; of the others, which stay put, one with the word for it in
/// its name is a wall, and the rest is floor.
pub proof fn colliders_play_their_nodes_parts(
    ns: Seq<NodeView>,
    places: Seq<Place>,
    mesh: u128,
) -> (at: Seq<int>)
    requires
        places.len() == ns.len(),
    ensures
        at.len() == with_nodes(ns, places, mesh).colliders.len(),
        forall|k: int| 0 <= k < at.len() ==> 0 <= #[trigger] at[k] < ns.len(),
        forall|k: int, l: int| 0 <= k < l < at.len() ==> #[trigger] at[k] < #[trigger] at[l],
        forall|i: int| 0 <= i < ns.len() ==> (#[trigger] at.contains(i) <==> solid(ns[i].tag)),
        forall|k: int|
            0 <= k < at.len() ==> {
                let c = #[trigger] with_nodes(ns, places, mesh).colliders[k];
                &&& c.dynamic <==> is_the_balls(ns, at[k])
                &&& c.role == ROLE_BALL <==> is_the_balls(ns, at[k])
                &&& c.role == ROLE_WALL <==> !is_the_balls(ns, at[k]) && occurs(
                    ns[at[k]].name,
                    "Wall"@,
                )
                &&& c.role == ROLE_FLOOR <==> !is_the_balls(ns, at[k]) && !occurs(
                    ns[at[k]].name,
                    "Wall"@,
                )
            },
{
    let at = colliders_follow_their_nodes(ns, places, mesh);
    assert forall|k: int| 0 <= k < at.len() implies stands_for(
        ns,
        places,
        #[trigger] with_nodes(ns, places, mesh).colliders[k],
        at[k],
    ) by {
        assert(stands_for(ns, places, with_nodes(ns, places, mesh).colliders[k], at[k]));
    }
    at
}

/// Whether the node at `i` carries a collider, one that the engine has no shape for or not, and
/// is the ball's.
pub open spec fn starts_the_ball(ns: Seq<NodeView>, i: int) -> bool {
    (solid(ns[i].tag) || ns[i].tag == NodeTag::Ellipsoid) && is_the_balls(ns, i)
}

/// The ball starts at the last of its colliders, in all three coordinates, and 0.6 above the
/// middle of the table where it has none.
pub proof fn the_ball_starts_at_its_last_collider(ns: Seq<NodeView>, places: Seq<Place>, mesh: u128)
    requires
        places.len() == ns.len(),
    ensures
        forall|i: int|
            #![trigger starts_the_ball(ns, i)]
            0 <= i < ns.len() && starts_the_ball(ns, i) && (forall|j: int|
                i < j < ns.len() ==> !#[trigger] starts_the_ball(ns, j)) ==> {
                let spawn = with_nodes(ns, places, mesh).spawn;
                &&& spawn@[0] == places[i].translation@[0]
                &&& spawn@[1] == places[i].translation@[1]
                &&& spawn@[2] == places[i].translation@[2]
            },
        (forall|i: int| 0 <= i < ns.len() ==> !#[trigger] starts_the_ball(ns, i)) ==> with_nodes(
            ns,
            places,
            mesh,
        ).spawn@ =~= seq![0i64, 600_000i64, 0i64],
{
    spawns_follow(ns, places, mesh);
}

proof fn spawns_follow(ns: Seq<NodeView>, places: Seq<Place>, mesh: u128)
    ensures
        forall|i: int|
            #![trigger starts_the_ball(ns, i)]
            0 <= i < ns.len() && starts_the_ball(ns, i) && (forall|j: int|
                i < j < ns.len() ==> !#[trigger] starts_the_ball(ns, j)) ==> with_nodes(
                ns,
                places,
                mesh,
            ).spawn == places[i].translation,
        (forall|i: int| 0 <= i < ns.len() ==> !#[trigger] starts_the_ball(ns, i)) ==> with_nodes(
            ns,
            places,
            mesh,
        ).spawn@ =~= seq![0i64, 600_000i64, 0i64],
    decreases ns.len(),
{
    if ns.len() > 0 {
        let (rest, last) = (ns.drop_last(), ns.len() - 1);
        spawns_follow(rest, places, mesh);
        the_last_is_the_balls_by_its_root(ns);
        assert(collider_in(ns[last]) is Some <==> solid(ns[last].tag) || ns[last].tag
            == NodeTag::Ellipsoid);
        assert forall|i: int| 0 <= i < last implies starts_the_ball(rest, i)
            == #[trigger] starts_the_ball(ns, i) by {
            a_longer_list_has_the_same_roots(ns, i);
            assert(rest[i] == ns[i]);
        }
        assert forall|i: int|
            #![trigger starts_the_ball(ns, i)]
            0 <= i < ns.len() && starts_the_ball(ns, i) && (forall|j: int|
                i < j < ns.len() ==> !#[trigger] starts_the_ball(ns, j)) implies with_nodes(
            ns,
            places,
            mesh,
        ).spawn == places[i].translation by {
            if i < last {
                assert(!starts_the_ball(ns, last));
                assert(starts_the_ball(rest, i));
                assert forall|j: int| i < j < rest.len() implies !#[trigger] starts_the_ball(
                    rest,
                    j,
                ) by {
                    assert(!starts_the_ball(ns, j));
                }
            }
        }
        if forall|i: int| 0 <= i < ns.len() ==> !#[trigger] starts_the_ball(ns, i) {
            assert(!starts_the_ball(ns, last));
            assert forall|i: int| 0 <= i < rest.len() implies !#[trigger] starts_the_ball(
                rest,
                i,
            ) by {
                assert(!starts_the_ball(ns, i));
            }
        }
    }
}

/// The ball's mesh is drawn at the first scale of its node's place, and at its own size where the
/// scene does not have that node.
pub proof fn the_mesh_is_drawn_at_its_scale(ns: Seq<NodeView>, places: Seq<Place>, mesh: u128)
    requires
        places.len() == ns.len(),
    ensures
        forall|i: int|
            0 <= i < ns.len() && (#[trigger] ns[i]).id == mesh && (forall|j: int|
                i < j < ns.len() ==> (#[trigger] ns[j]).id != mesh) ==> with_nodes(
                ns,
                places,
                mesh,
            ).ball_scale == places[i].scale@[0],
        (forall|i: int| 0 <= i < ns.len() ==> (#[trigger] ns[i]).id != mesh) ==> with_nodes(
            ns,
            places,
            mesh,
        ).ball_scale == 1_000_000,
{
    assert forall|i: int|
        0 <= i < ns.len() && (#[trigger] ns[i]).id == mesh && (forall|j: int|
            i < j < ns.len() ==> (#[trigger] ns[j]).id != mesh) implies with_nodes(
        ns,
        places,
        mesh,
    ).ball_scale == places[i].scale@[0] by {
        scales_follow(ns, places, mesh, i);
    }
    if forall|i: int| 0 <= i < ns.len() ==> (#[trigger] ns[i]).id != mesh {
        scales_follow(ns, places, mesh, -1);
    }
}

proof fn scales_follow(ns: Seq<NodeView>, places: Seq<Place>, mesh: u128, i: int)
    requires
        -1 <= i < ns.len(),
        0 <= i ==> ns[i].id == mesh,
        forall|j: int| i < j < ns.len() ==> (#[trigger] ns[j]).id != mesh,
    ensures
        with_nodes(ns, places, mesh).ball_scale == (if i < 0 {
            1_000_000
        } else {
            places[i].scale@[0]
        }),
    decreases ns.len(),
{
    if i < ns.len() - 1 {
        let rest = ns.drop_last();
        assert(ns[ns.len() - 1].id != mesh);
        assert forall|j: int| i < j < rest.len() implies (#[trigger] rest[j]).id != mesh by {
            assert(rest[j] == ns[j]);
        }
        scales_follow(rest, places, mesh, i);
    }
}

/// The tabletop that is found is the first collider that stays put, is floor and is a box; none is
/// found only where there is none.
pub proof fn the_tabletop_is_the_first_floor_box(colliders: Seq<ColliderInit>, from: int)
    requires
        0 <= from,
    ensures
        match floor_position(colliders, from) {
            Some(i) => {
                &&& from <= i < colliders.len()
                &&& !colliders[i].dynamic && colliders[i].role == ROLE_FLOOR
                &&& colliders[i].shape is Cuboid
                &&& forall|j: int|
                    from <= j < i ==> (#[trigger] colliders[j]).dynamic || colliders[j].role
                        != ROLE_FLOOR || !(colliders[j].shape is Cuboid)
            },
            None => forall|j: int|
                from <= j < colliders.len() ==> (#[trigger] colliders[j]).dynamic
                    || colliders[j].role != ROLE_FLOOR || !(colliders[j].shape is Cuboid),
        },
    decreases colliders.len() - from,
{
    if from < colliders.len() && !is_floor_box(colliders[from]) {
        the_tabletop_is_the_first_floor_box(colliders, from + 1);
    }
}

/// The tabletop is known by the half extents and the place of its box, in this order.
pub proof fn the_tabletop_is_its_box(colliders: Seq<ColliderInit>)
    ensures
        match floor_position(colliders, 0) {
            Some(i) => tabletop(colliders) matches Some(t) && (
            colliders[i].shape matches ColliderShapeMsg::Cuboid { half_extents } && t.0@[0]
                == half_extents@[0] && t.0@[1] == half_extents@[1] && t.0@[2] == half_extents@[2])
                && t.1@[0] == colliders[i].translation@[0] && t.1@[1]
                == colliders[i].translation@[1] && t.1@[2] == colliders[i].translation@[2],
            None => tabletop(colliders) is None,
        },
{
    the_tabletop_is_the_first_floor_box(colliders, 0);
}

} // verus!
