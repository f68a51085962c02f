use single_player_game_physics::box3d::{b3BodyId, b3ShapeId, b3WorldId, b3dsys_probe};

#[test]
fn probe_links_and_runs() {
    assert_eq!(b3dsys_probe(1), 42);
}

#[test]
fn slot_zero_names_no_body() {
    assert!(b3BodyId::default().is_null());
    let body = b3BodyId { index1: 1, world0: 0, generation: 0 };
    assert!(!body.is_null());
    assert_eq!(b3WorldId::default(), b3WorldId { index1: 0, generation: 0 });
    assert_eq!(b3ShapeId::default(), b3ShapeId { index1: 0, world0: 0, generation: 0 });
}
