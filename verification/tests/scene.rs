use single_player_game_physics::protocol::{
    ColliderInit, ColliderShapeMsg, ROLE_BALL, ROLE_FLOOR, ROLE_WALL,
};
use single_player_game_physics::scene::{
    ball_mesh, collider_of, collider_shape_msg, derive_physics, fetch_scene, find_mesh_node,
    floor_box, parent_of, parse_outcome, ColliderShape, Fetched, FileNode, NodeTag, Place,
    SceneError,
};
use single_player_game_physics::units::micros_from;

const UNIT: [i64; 3] = [1_000_000, 1_000_000, 1_000_000];

fn node(depth: usize, id: u128, name: &str, tag: NodeTag, half: f32) -> FileNode {
    FileNode {
        depth,
        id,
        name: name.to_string(),
        tag,
        extents: [half.to_bits(); 3],
        local: vec![],
    }
}

fn at(x: i64) -> Place {
    Place { scale: UNIT, rotation: [0, 0, 0, 1_000_000], translation: [x, 0, 0] }
}

fn places(nodes: &[FileNode]) -> Vec<Place> {
    nodes
        .iter()
        .map(|n| match n.id {
            4 => Place { scale: [400_000, 400_000, 400_000], ..at(4) },
            id => at(id as i64),
        })
        .collect()
}

fn nodes() -> Vec<FileNode> {
    vec![
        node(0, 1, "Table", NodeTag::Other, 0.0),
        node(1, 10, "Wall_North", NodeTag::Box, 0.000_005),
        node(1, 11, "Tabletop_Collider", NodeTag::Box, 0.000_007),
        node(0, 2, "Ball", NodeTag::Other, 0.0),
        node(1, 3, "Wall_Like", NodeTag::Sphere, 0.2),
        node(1, 4, "Ball_Mesh", NodeTag::Mesh, 0.0),
        node(1, 5, "Late", NodeTag::Mesh, 0.0),
        node(0, 6, "After", NodeTag::Mesh, 0.0),
    ]
}

fn cuboid_of(c: &ColliderInit) -> [i64; 3] {
    match c.shape {
        ColliderShapeMsg::Cuboid { half_extents } => half_extents,
        _ => panic!("not a box"),
    }
}

const FILE: &str = "name = \"demo\"\n\n\
    [[nodes]]\nid = \"00000000-0000-0000-0000-000000000001\"\nname = \"Table\"\nkind = \"group\"\n\
    transform = { translation = [1.0, 2.0, 3.0], rotation = [0.0, 0.0, 0.0, 1.0], \
    scale = [2.0, 2.0, 2.0] }\n\n\
    [[nodes.children]]\nid = \"00000000-0000-0000-0000-00000000000a\"\nname = \"Wall\"\n\
    kind = { collider = { box = { half_extents = [3.0, 0.1, 2.0] } } }\n\n\
    [[nodes.children.children]]\nid = \"00000000-0000-0000-0000-00000000000b\"\nname = \"Deep\"\n\
    kind = { collider = { capsule = { half_height = 0.5, radius = nan } } }\n\n\
    [[nodes]]\nid = \"00000000-0000-0000-0000-000000000002\"\nname = \"Ball\"\n\
    kind = { collider = { sphere = { radius = 0.2 } } }\n\n\
    [[nodes.children]]\nid = \"00000000-0000-0000-0000-000000000003\"\nname = \"Look\"\n\
    kind = { mesh = { mesh = \"00000000-0000-0000-0000-0000000000ff\" } }\n";

#[test]
fn a_scene_file_gives_its_nodes() {
    let (scene, nodes) = match fetch_scene(Fetched::Text(FILE.to_string())) {
        Ok(parsed) => parsed,
        Err(e) => panic!("{e}"),
    };
    assert_eq!((scene.name.as_str(), scene.nodes.len()), ("demo", 2));
    let tree: Vec<(usize, u128, &str, NodeTag)> =
        nodes.iter().map(|n| (n.depth, n.id, n.name.as_str(), n.tag)).collect();
    assert_eq!(
        tree,
        vec![
            (0, 1, "Table", NodeTag::Other),
            (1, 10, "Wall", NodeTag::Box),
            (2, 11, "Deep", NodeTag::Capsule),
            (0, 2, "Ball", NodeTag::Sphere),
            (1, 3, "Look", NodeTag::Mesh),
        ]
    );
    let bits = |v: &[f32]| -> Vec<u32> { v.iter().map(|x| x.to_bits()).collect() };
    assert_eq!(nodes[0].local, bits(&[1.0, 2.0, 3.0, 0.0, 0.0, 0.0, 1.0, 2.0, 2.0, 2.0]));
    assert_eq!(nodes[1].local, bits(&[0.0, 0.0, 0.0, 0.0, 0.0, 0.0, 1.0, 1.0, 1.0, 1.0]));
    let half_extents = [3_000_000, 100_000, 2_000_000];
    assert_eq!(collider_of(&nodes[1]), Some(ColliderShape::Box { half_extents }));
    assert_eq!(
        collider_of(&nodes[2]),
        Some(ColliderShape::Capsule { half_height: 500_000, radius: 0 })
    );
    assert_eq!(collider_of(&nodes[3]), Some(ColliderShape::Sphere { radius: 200_000 }));
    assert_eq!((collider_of(&nodes[0]), collider_of(&nodes[4])), (None, None));
    assert_eq!(ball_mesh(&nodes), Ok(3));
    let parents: Vec<Option<usize>> = (0..5).map(|i| parent_of(&nodes, i)).collect();
    assert_eq!(parents, vec![None, Some(0), Some(1), None, Some(3)]);
}

#[test]
fn each_node_of_a_scene_file_keeps_its_kind() {
    let tag = |kind: &str| -> (NodeTag, [u32; 3]) {
        let text = format!(
            "name = \"demo\"\n[[nodes]]\nid = \"00000000-0000-0000-0000-000000000001\"\n\
             name = \"n\"\nkind = {kind}\n"
        );
        match fetch_scene(Fetched::Text(text)) {
            Ok((_, nodes)) => (nodes[0].tag, nodes[0].extents),
            Err(e) => panic!("{e}"),
        }
    };
    let (one, two, three) = (1.0f32.to_bits(), 2.0f32.to_bits(), 3.0f32.to_bits());
    let round = "{ half_height = 1.0, radius = 2.0 }";
    assert_eq!(tag("\"group\""), (NodeTag::Other, [0, 0, 0]));
    let id = "00000000-0000-0000-0000-0000000000ff";
    assert_eq!(
        tag(&format!("{{ skinned_mesh = {{ skin = {{ source = \"{id}\", node_index = 0 }} }} }}")),
        (NodeTag::SkinnedMesh, [0, 0, 0])
    );
    assert_eq!(
        tag(&format!("{{ cluster_mesh = {{ cluster = {{ source = \"{id}\" }} }} }}")),
        (NodeTag::ClusterMesh, [0, 0, 0])
    );
    assert_eq!(
        tag("{ collider = { ellipsoid = { half_extents = [1.0, 2.0, 3.0] } } }"),
        (NodeTag::Ellipsoid, [one, two, three])
    );
    assert_eq!(
        tag(&format!("{{ collider = {{ cylinder = {round} }} }}")),
        (NodeTag::Cylinder, [one, two, 0])
    );
    assert_eq!(tag(&format!("{{ collider = {{ cone = {round} }} }}")), (NodeTag::Cone, [one, two, 0]));
}

#[test]
fn an_empty_scene_file_has_no_nodes() {
    match fetch_scene(Fetched::Text(String::new())) {
        Ok((_, nodes)) => assert!(nodes.is_empty()),
        Err(e) => panic!("{e}"),
    }
}

#[test]
fn numbers_are_counted_in_millionths() {
    let cases = [
        0.0f32, -0.0, 1.0, -1.0, 0.1, -0.3, 0.000_000_4, 0.000_000_5, -0.000_000_6, 123.456_78,
        16_777_216.0, 9_223_372_036_854.0, 9_300_000_000_000.0, -1.0e30, 1.0e-30, f32::MAX,
        f32::MIN_POSITIVE, 1.0e-45, f32::INFINITY, f32::NEG_INFINITY, f32::NAN, 7.629_394_5e-6,
    ];
    for v in cases {
        assert_eq!(micros_from(v.to_bits()), (f64::from(v) * 1e6).round() as i64, "{v}");
    }
    assert_eq!(micros_from(1.5f32.to_bits()), 1_500_000);
    for exponent in 0..256u32 {
        for fraction in [0u32, 1, 0x40_0000, 0x7f_ffff] {
            let v = f32::from_bits(exponent << 23 | fraction);
            assert_eq!(micros_from(v.to_bits()), (f64::from(v) * 1e6).round() as i64);
            assert_eq!(micros_from((-v).to_bits()), (f64::from(-v) * 1e6).round() as i64);
        }
    }
}

#[test]
fn each_stage_of_a_download_reports_its_fault() {
    let line = |f: Fetched| fetch_scene(f).err().unwrap_or_default();
    assert_eq!(line(Fetched::NotSent("offline".to_string())), "fetch: offline");
    assert_eq!(line(Fetched::NotRead("cut off".to_string())), "read: cut off");
    let fault = line(Fetched::Text("nodes = 3".to_string()));
    assert!(fault.starts_with("parse: "));
    assert!(fault.len() > "parse: ".len());
    assert!(line(Fetched::Text("name = ".to_string())).starts_with("parse: "));
}

#[test]
fn a_parser_outcome_is_passed_on() {
    assert_eq!(parse_outcome(Ok::<u8, String>(3)), Ok(3));
    assert_eq!(
        parse_outcome(Err::<u8, String>("bad".to_string())),
        Err("parse: bad".to_string())
    );
}

#[test]
fn the_first_mesh_below_the_ball_is_driven() {
    assert_eq!(ball_mesh(&nodes()), Ok(4));
    assert_eq!(find_mesh_node(&nodes(), 0), None);
    assert_eq!(find_mesh_node(&nodes(), 7), Some(6));
    let nested = vec![
        node(0, 1, "Ball", NodeTag::Other, 0.0),
        node(1, 2, "g", NodeTag::Other, 0.0),
        node(2, 3, "deep", NodeTag::Mesh, 0.0),
        node(1, 4, "shallow", NodeTag::Mesh, 0.0),
    ];
    assert_eq!(find_mesh_node(&nested, 0), Some(3));
    assert_eq!(find_mesh_node(&nested, 3), Some(4));
    for tag in [NodeTag::SkinnedMesh, NodeTag::ClusterMesh] {
        assert_eq!(ball_mesh(&vec![node(0, 8, "Ball", tag, 0.0)]), Ok(8));
    }
}

#[test]
fn each_scene_error_has_its_scene() {
    assert_eq!(ball_mesh(&vec![]), Err(SceneError::NoBall));
    let below = vec![
        node(0, 1, "Table", NodeTag::Other, 0.0),
        node(1, 2, "Ball", NodeTag::Mesh, 0.0),
    ];
    assert_eq!(ball_mesh(&below), Err(SceneError::NoBall));
    let bare = vec![
        node(0, 1, "Ball", NodeTag::Other, 0.0),
        node(0, 2, "Other", NodeTag::Mesh, 0.0),
    ];
    assert_eq!(ball_mesh(&bare), Err(SceneError::NoMesh));
    assert_eq!(SceneError::NoBall.message(), "scene has no node named 'Ball'");
    assert_eq!(SceneError::NoMesh.message(), "'Ball' has no renderable mesh node to drive");
}

#[test]
fn physics_comes_out_of_the_collider_nodes() {
    let d = derive_physics(&nodes(), &places(&nodes()), 4);
    assert_eq!(d.colliders.len(), 3);
    let roles: Vec<(bool, u8)> = d.colliders.iter().map(|c| (c.dynamic, c.role)).collect();
    assert_eq!(roles, vec![(false, ROLE_WALL), (false, ROLE_FLOOR), (true, ROLE_BALL)]);
    assert_eq!(cuboid_of(&d.colliders[0]), [5, 5, 5]);
    assert_eq!(d.colliders[1].translation, [11, 0, 0]);
    assert!(matches!(d.colliders[2].shape, ColliderShapeMsg::Ball { radius: 200_000 }));
    assert_eq!(d.spawn, [3, 0, 0]);
    assert_eq!(d.ball_scale, 400_000);
    assert_eq!(floor_box(&d.colliders), Some(([7, 7, 7], [11, 0, 0])));
}

#[test]
fn a_scene_without_a_ball_keeps_the_defaults() {
    let d = derive_physics(&vec![node(0, 1, "Rock", NodeTag::Box, 1.0)], &vec![at(1)], 9);
    assert_eq!(d.spawn, [0, 600_000, 0]);
    assert_eq!(d.ball_scale, 1_000_000);
    assert!(!d.colliders[0].dynamic);
    assert_eq!(floor_box(&vec![]), None);
}

#[test]
fn an_ellipsoid_moves_the_spawn_but_makes_no_collider() {
    let e = vec![node(0, 6, "Ball", NodeTag::Ellipsoid, 1.0)];
    let d = derive_physics(&e, &vec![at(6)], 9);
    assert!(d.colliders.is_empty());
    assert_eq!(d.spawn, [6, 0, 0]);
}

#[test]
fn scales_fold_into_extents() {
    let s = [2_000_000, -3_000_000, 500_000];
    assert!(matches!(
        collider_shape_msg(&ColliderShape::Box { half_extents: [10, 10, 10] }, &s),
        Some(ColliderShapeMsg::Cuboid { half_extents: [20, 30, 5] })
    ));
    assert!(matches!(
        collider_shape_msg(&ColliderShape::Sphere { radius: 10 }, &s),
        Some(ColliderShapeMsg::Ball { radius: 30 })
    ));
    assert!(matches!(
        collider_shape_msg(&ColliderShape::Capsule { half_height: 10, radius: 10 }, &s),
        Some(ColliderShapeMsg::Capsule { half_height: 30, radius: 20 })
    ));
    assert!(matches!(
        collider_shape_msg(&ColliderShape::Cylinder { half_height: 10, radius: 10 }, &s),
        Some(ColliderShapeMsg::Cylinder { half_height: 30, radius: 20 })
    ));
    assert!(matches!(
        collider_shape_msg(&ColliderShape::Cone { half_height: 10, radius: 10 }, &s),
        Some(ColliderShapeMsg::Cone { half_height: 30, radius: 20 })
    ));
    assert!(matches!(
        collider_shape_msg(&ColliderShape::Sphere { radius: i64::MAX }, &s),
        Some(ColliderShapeMsg::Ball { radius: i64::MAX })
    ));
    assert!(
        collider_shape_msg(&ColliderShape::Ellipsoid { half_extents: [1, 1, 1] }, &s).is_none()
    );
}
