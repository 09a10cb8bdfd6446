use zk_trails::trails::{Error, TrailData, ZkTrails};

#[test]
fn test_trails_initialize_once_then_already_initialized() {
    let mut t = ZkTrails::new();
    assert_eq!(t.initialize(1, 2, 3), Ok(()));
    assert_eq!(t.admin, Some(1));
    assert_eq!(t.mission_manager, 2);
    assert_eq!(t.zk_verifier, 3);
    assert_eq!(t.initialize(4, 5, 6), Err(Error::AlreadyInitialized));
    assert_eq!(t.admin, Some(1));
}

#[test]
fn test_record_trail_assigns_increasing_ids_from_one() {
    let mut t = ZkTrails::new();
    t.initialize(1, 2, 3).unwrap();
    assert_eq!(t.record_trail(5, 0, [0u8; 32], 1000), 1);
    assert_eq!(t.record_trail(5, 1, [1u8; 32], 1001), 2);
    assert_eq!(t.record_trail(6, 0, [2u8; 32], 1002), 3);
}

#[test]
fn test_record_trail_works_without_initialize() {
    let mut t = ZkTrails::new();
    assert_eq!(t.record_trail(5, 0, [7u8; 32], 99), 1);
}

#[test]
fn test_get_trail_returns_stored_entry() {
    let mut t = ZkTrails::new();
    t.initialize(1, 2, 3).unwrap();
    let proof = [9u8; 32];
    let id = t.record_trail(5, 8, proof, 12345);
    let data = t.get_trail(id).unwrap();
    assert_eq!(data.player, 5);
    assert_eq!(data.mission_id, 8);
    assert_eq!(data.location_proof, proof);
    assert_eq!(data.timestamp, 12345);
}

#[test]
fn test_get_trail_unknown_id_fails() {
    let mut t = ZkTrails::new();
    assert_eq!(t.get_trail(0), Err(Error::TrailNotFound));
    assert_eq!(t.get_trail(1), Err(Error::TrailNotFound));
    t.record_trail(5, 0, [0u8; 32], 1);
    assert!(t.get_trail(1).is_ok());
    assert_eq!(t.get_trail(2), Err(Error::TrailNotFound));
}

#[test]
fn test_get_player_trails_filters_by_player_in_order() {
    let mut t = ZkTrails::new();
    t.record_trail(5, 0, [1u8; 32], 10);
    t.record_trail(6, 1, [2u8; 32], 11);
    t.record_trail(5, 2, [3u8; 32], 12);
    let mine: Vec<TrailData> = t.get_player_trails(5);
    assert_eq!(mine.len(), 2);
    assert_eq!(mine[0].mission_id, 0);
    assert_eq!(mine[0].timestamp, 10);
    assert_eq!(mine[1].mission_id, 2);
    assert_eq!(mine[1].timestamp, 12);
    assert!(t.get_player_trails(7).is_empty());
}
