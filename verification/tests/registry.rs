use zk_trails::game_hub::MockGameHub;
use zk_trails::registry::{Error, MissionManager, MissionStatus, PlayerStats, GAME_HUB_PRINCIPAL};
use zk_trails::zk_verifier::PROOF_BYTES;

const ADMIN: u64 = 1;
const PLAYER: u64 = 5;
const OTHER_PLAYER: u64 = 6;

fn initialized_manager() -> MissionManager {
    let mut mm = MissionManager::new();
    mm.initialize(ADMIN).unwrap();
    mm
}

#[test]
fn test_initialize_succeeds_once_then_already_initialized() {
    let mut mm = MissionManager::new();
    assert_eq!(mm.initialize(ADMIN), Ok(()));
    assert_eq!(mm.initialize(ADMIN), Err(Error::AlreadyInitialized));
    assert_eq!(mm.initialize(OTHER_PLAYER), Err(Error::AlreadyInitialized));
}

#[test]
fn test_create_mission_before_initialize_fails_not_initialized() {
    let mut mm = MissionManager::new();
    let r = mm.create_mission(ADMIN, "M1".to_string(), "d".to_string(), 100, 1, 10, false);
    assert_eq!(r, Err(Error::NotInitialized));
}

#[test]
fn test_create_mission_by_non_admin_fails_unauthorized() {
    let mut mm = initialized_manager();
    let r = mm.create_mission(PLAYER, "M1".to_string(), "d".to_string(), 100, 1, 10, false);
    assert_eq!(r, Err(Error::Unauthorized));
    assert!(mm.get_mission(0).is_err());
}

#[test]
fn test_mission_ids_assigned_in_order_from_zero() {
    let mut mm = initialized_manager();
    for n in 0..3u64 {
        let r = mm.create_mission(ADMIN, format!("M{}", n), "d".to_string(), 10, 0, 0, false);
        assert_eq!(r, Ok(n));
    }
    for n in 0..3u64 {
        let m = mm.get_mission(n).unwrap();
        assert_eq!(m.id, n);
        assert_eq!(m.name, format!("M{}", n));
        assert_eq!(m.current_completions, 0);
    }
    assert!(matches!(mm.get_mission(3), Err(Error::MissionNotFound)));
}

#[test]
fn test_rank_buckets() {
    assert_eq!(MissionManager::calculate_rank(500), 3);
    assert_eq!(MissionManager::calculate_rank(2500), 2);
    assert_eq!(MissionManager::calculate_rank(10000), 1);
    assert_eq!(MissionManager::calculate_rank(999), 3);
    assert_eq!(MissionManager::calculate_rank(1000), 2);
    assert_eq!(MissionManager::calculate_rank(4999), 2);
    assert_eq!(MissionManager::calculate_rank(5000), 1);
    assert_eq!(MissionManager::calculate_rank(0), 3);
}

#[test]
fn test_start_mission_unknown_id_fails_not_found() {
    let mut mm = initialized_manager();
    let mut hub = MockGameHub::new(42);
    assert_eq!(mm.start_mission(&mut hub, PLAYER, 0), Err(Error::MissionNotFound));
    assert!(hub.starts.is_empty());
}

#[test]
fn test_start_mission_opens_session_and_writes_active_record() {
    let mut mm = initialized_manager();
    let mut hub = MockGameHub::new(42);
    mm.create_mission(ADMIN, "M1".to_string(), "d".to_string(), 100, 1, 10, false).unwrap();
    let session = mm.start_mission(&mut hub, PLAYER, 0).unwrap();
    assert_eq!(session, 42);
    assert_eq!(hub.starts.len(), 1);
    assert_eq!(hub.starts[0].session_id, 42);
    assert_eq!(hub.starts[0].game_id, 0);
    assert_eq!(hub.starts[0].player, PLAYER);
    let p = mm.get_player_progress(PLAYER, 0).unwrap();
    assert_eq!(p.status, MissionStatus::Active);
    assert_eq!(p.score, 0);
    assert_eq!(p.session_id, 42);
    assert_eq!(p.player, PLAYER);
    assert_eq!(p.mission_id, 0);
}

#[test]
fn test_complete_without_start_fails_no_active_mission() {
    let mut mm = initialized_manager();
    let mut hub = MockGameHub::new(42);
    mm.create_mission(ADMIN, "M1".to_string(), "d".to_string(), 100, 1, 0, false).unwrap();
    let r = mm.complete_mission(&mut hub, PLAYER, 0, 20, None);
    assert_eq!(r, Err(Error::NoActiveMission));
}

#[test]
fn test_complete_twice_fails_mission_not_active() {
    let mut mm = initialized_manager();
    let mut hub = MockGameHub::new(42);
    mm.create_mission(ADMIN, "M1".to_string(), "d".to_string(), 100, 0, 0, false).unwrap();
    mm.start_mission(&mut hub, PLAYER, 0).unwrap();
    assert_eq!(mm.complete_mission(&mut hub, PLAYER, 0, 20, None), Ok(()));
    assert_eq!(mm.complete_mission(&mut hub, PLAYER, 0, 20, None), Err(Error::MissionNotActive));
}

#[test]
fn test_complete_score_below_minimum_leaves_state_unmodified() {
    let mut mm = initialized_manager();
    let mut hub = MockGameHub::new(42);
    mm.create_mission(ADMIN, "M1".to_string(), "d".to_string(), 100, 1, 10, false).unwrap();
    mm.start_mission(&mut hub, PLAYER, 0).unwrap();
    let ends_before = hub.ends.len();
    let r = mm.complete_mission(&mut hub, PLAYER, 0, 9, None);
    assert_eq!(r, Err(Error::ScoreBelowMinimum));
    assert_eq!(mm.get_player_stats(PLAYER), PlayerStats { total_missions: 0, total_score: 0, rank: 0 });
    assert_eq!(mm.get_mission(0).unwrap().current_completions, 0);
    assert!(mm.get_leaderboard().is_empty());
    assert_eq!(mm.get_player_progress(PLAYER, 0).unwrap().status, MissionStatus::Active);
    assert_eq!(hub.ends.len(), ends_before);
}

#[test]
fn test_complete_zk_required_without_proof_leaves_state_unmodified() {
    let mut mm = initialized_manager();
    let mut hub = MockGameHub::new(42);
    mm.create_mission(ADMIN, "M1".to_string(), "d".to_string(), 100, 1, 10, true).unwrap();
    mm.start_mission(&mut hub, PLAYER, 0).unwrap();
    let r = mm.complete_mission(&mut hub, PLAYER, 0, 20, None);
    assert_eq!(r, Err(Error::ZkProofRequired));
    assert_eq!(mm.get_player_stats(PLAYER), PlayerStats { total_missions: 0, total_score: 0, rank: 0 });
    assert_eq!(mm.get_mission(0).unwrap().current_completions, 0);
    assert!(mm.get_leaderboard().is_empty());
    assert_eq!(mm.get_player_progress(PLAYER, 0).unwrap().status, MissionStatus::Active);
    assert!(hub.ends.is_empty());
}

#[test]
fn test_complete_zk_required_with_proof_succeeds() {
    let mut mm = initialized_manager();
    let mut hub = MockGameHub::new(42);
    mm.create_mission(ADMIN, "M1".to_string(), "d".to_string(), 100, 1, 10, true).unwrap();
    mm.start_mission(&mut hub, PLAYER, 0).unwrap();
    let proof = vec![1u8; PROOF_BYTES];
    assert_eq!(mm.complete_mission(&mut hub, PLAYER, 0, 20, Some(proof)), Ok(()));
    assert_eq!(mm.get_player_progress(PLAYER, 0).unwrap().status, MissionStatus::Completed);
}

#[test]
fn test_full_mission_lifecycle_scenario() {
    let mut mm = MissionManager::new();
    let mut hub = MockGameHub::new(42);
    assert_eq!(mm.initialize(ADMIN), Ok(()));
    assert_eq!(mm.initialize(ADMIN), Err(Error::AlreadyInitialized));
    let id = mm
        .create_mission(ADMIN, "M1".to_string(), "...".to_string(), 100, 1, 10, false)
        .unwrap();
    assert_eq!(id, 0);
    let session = mm.start_mission(&mut hub, PLAYER, 0).unwrap();
    assert_eq!(mm.get_player_progress(PLAYER, 0).unwrap().status, MissionStatus::Active);
    assert_eq!(mm.complete_mission(&mut hub, PLAYER, 0, 20, None), Ok(()));
    let stats = mm.get_player_stats(PLAYER);
    assert_eq!(stats.total_score, 20);
    assert_eq!(stats.total_missions, 1);
    assert_eq!(stats.rank, 3);
    assert_eq!(mm.get_mission(0).unwrap().current_completions, 1);
    let p = mm.get_player_progress(PLAYER, 0).unwrap();
    assert_eq!(p.status, MissionStatus::Completed);
    assert_eq!(p.score, 20);
    assert_eq!(p.session_id, session);
    assert_eq!(mm.start_mission(&mut hub, PLAYER, 0), Err(Error::MissionAtCapacity));
    assert_eq!(mm.get_leaderboard(), vec![PLAYER]);
}

#[test]
fn test_leaderboard_has_no_duplicates_across_completions() {
    let mut mm = initialized_manager();
    let mut hub = MockGameHub::new(42);
    mm.create_mission(ADMIN, "M1".to_string(), "d".to_string(), 10, 0, 0, false).unwrap();
    mm.create_mission(ADMIN, "M2".to_string(), "d".to_string(), 10, 0, 0, false).unwrap();
    for mission_id in 0..2u64 {
        mm.start_mission(&mut hub, PLAYER, mission_id).unwrap();
        assert_eq!(mm.complete_mission(&mut hub, PLAYER, mission_id, 5, None), Ok(()));
    }
    assert_eq!(mm.get_leaderboard(), vec![PLAYER]);
    mm.start_mission(&mut hub, OTHER_PLAYER, 0).unwrap();
    assert_eq!(mm.complete_mission(&mut hub, OTHER_PLAYER, 0, 5, None), Ok(()));
    assert_eq!(mm.get_leaderboard(), vec![PLAYER, OTHER_PLAYER]);
}

#[test]
fn test_capacity_is_never_exceeded() {
    let mut mm = initialized_manager();
    let mut hub = MockGameHub::new(42);
    mm.create_mission(ADMIN, "M1".to_string(), "d".to_string(), 100, 1, 0, false).unwrap();
    mm.start_mission(&mut hub, PLAYER, 0).unwrap();
    mm.start_mission(&mut hub, OTHER_PLAYER, 0).unwrap();
    assert_eq!(mm.complete_mission(&mut hub, PLAYER, 0, 5, None), Ok(()));
    assert_eq!(mm.get_mission(0).unwrap().current_completions, 1);
    assert_eq!(mm.complete_mission(&mut hub, OTHER_PLAYER, 0, 5, None), Err(Error::MissionAtCapacity));
    assert_eq!(mm.get_mission(0).unwrap().current_completions, 1);
}

#[test]
fn test_unlimited_capacity_when_max_completions_zero() {
    let mut mm = initialized_manager();
    let mut hub = MockGameHub::new(42);
    mm.create_mission(ADMIN, "M1".to_string(), "d".to_string(), 100, 0, 0, false).unwrap();
    for player in 10..15u64 {
        mm.start_mission(&mut hub, player, 0).unwrap();
        assert_eq!(mm.complete_mission(&mut hub, player, 0, 1, None), Ok(()));
    }
    assert_eq!(mm.get_mission(0).unwrap().current_completions, 5);
}

#[test]
fn test_get_player_stats_defaults_to_zero_and_never_fails() {
    let mm = MissionManager::new();
    assert_eq!(mm.get_player_stats(PLAYER), PlayerStats { total_missions: 0, total_score: 0, rank: 0 });
    let mut mm = initialized_manager();
    let mut hub = MockGameHub::new(42);
    mm.create_mission(ADMIN, "M1".to_string(), "d".to_string(), 100, 0, 0, false).unwrap();
    mm.start_mission(&mut hub, OTHER_PLAYER, 0).unwrap();
    mm.complete_mission(&mut hub, OTHER_PLAYER, 0, 7, None).unwrap();
    assert_eq!(mm.get_player_stats(PLAYER), PlayerStats { total_missions: 0, total_score: 0, rank: 0 });
}

#[test]
fn test_stats_accumulate_and_rank_moves_up() {
    let mut mm = initialized_manager();
    let mut hub = MockGameHub::new(42);
    mm.create_mission(ADMIN, "M1".to_string(), "d".to_string(), 10, 0, 0, false).unwrap();
    mm.create_mission(ADMIN, "M2".to_string(), "d".to_string(), 10, 0, 0, false).unwrap();
    mm.start_mission(&mut hub, PLAYER, 0).unwrap();
    mm.complete_mission(&mut hub, PLAYER, 0, 900, None).unwrap();
    assert_eq!(mm.get_player_stats(PLAYER), PlayerStats { total_missions: 1, total_score: 900, rank: 3 });
    mm.start_mission(&mut hub, PLAYER, 1).unwrap();
    mm.complete_mission(&mut hub, PLAYER, 1, 4100, None).unwrap();
    assert_eq!(mm.get_player_stats(PLAYER), PlayerStats { total_missions: 2, total_score: 5000, rank: 1 });
}

#[test]
fn test_restart_overwrites_active_progress() {
    let mut mm = initialized_manager();
    let mut hub = MockGameHub::new(42);
    mm.create_mission(ADMIN, "M1".to_string(), "d".to_string(), 10, 0, 0, false).unwrap();
    mm.start_mission(&mut hub, PLAYER, 0).unwrap();
    let mut hub2 = MockGameHub::new(43);
    let session = mm.start_mission(&mut hub2, PLAYER, 0).unwrap();
    assert_eq!(session, 43);
    let p = mm.get_player_progress(PLAYER, 0).unwrap();
    assert_eq!(p.session_id, 43);
    assert_eq!(p.status, MissionStatus::Active);
    assert_eq!(p.score, 0);
}

#[test]
fn test_completion_session_end_reported_to_hub() {
    let mut mm = initialized_manager();
    let mut hub = MockGameHub::new(42);
    mm.create_mission(ADMIN, "M1".to_string(), "d".to_string(), 10, 0, 0, false).unwrap();
    mm.start_mission(&mut hub, PLAYER, 0).unwrap();
    mm.complete_mission(&mut hub, PLAYER, 0, 5, None).unwrap();
    assert_eq!(hub.ends.len(), 1);
    assert_eq!(hub.ends[0].session_id, 42);
    assert_eq!(hub.ends[0].player, PLAYER);
    assert!(hub.ends[0].player_won);
}

#[test]
fn test_get_player_progress_absent_fails() {
    let mm = MissionManager::new();
    assert_eq!(mm.get_player_progress(PLAYER, 0), Err(Error::NoActiveMission));
}

#[test]
fn test_get_game_hub_returns_fixed_address() {
    let mm = MissionManager::new();
    assert_eq!(mm.get_game_hub(), GAME_HUB_PRINCIPAL);
}
