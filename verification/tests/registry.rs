use anchor_lang::prelude::Pubkey;
use darkmine::{initialize_leaderboard, GameError, PlayerRecordStore};

fn key(tag: u8) -> Pubkey {
    Pubkey::new_from_array([tag; 32])
}

#[test]
fn empty_store_knows_nobody() {
    let store = PlayerRecordStore::new();
    assert!(!store.contains(&key(1)));
    assert!(matches!(store.get(&key(1)), Err(GameError::NotFound)));
}

#[test]
fn created_player_has_a_blank_record() {
    let mut store = PlayerRecordStore::new();
    assert_eq!(store.create(key(1), 44), Ok(()));
    assert!(store.contains(&key(1)));
    assert!(!store.contains(&key(2)));
    let record = store.get(&key(1)).unwrap();
    assert_eq!(record.player, key(1));
    assert_eq!(record.name, "");
    assert_eq!(record.games_played, 0);
    assert_eq!(record.total_score, 0);
    assert_eq!(record.high_score, 0);
    assert_eq!(record.total_diamonds, 0);
    assert_eq!(record.diamonds_claimed, 0);
    assert_eq!(record.joined_timestamp, 44);
    assert_eq!(record.last_game_timestamp, 0);
}

#[test]
fn creating_twice_is_refused() {
    let mut store = PlayerRecordStore::new();
    store.create(key(1), 44).unwrap();
    store.set_name(&key(1), "Ada".to_string()).unwrap();
    assert_eq!(store.create(key(1), 55), Err(GameError::AlreadyExists));
    let record = store.get(&key(1)).unwrap();
    assert_eq!(record.name, "Ada");
    assert_eq!(record.joined_timestamp, 44);
}

#[test]
fn keys_that_differ_in_one_byte_are_different_players() {
    let mut a = [9u8; 32];
    let mut b = [9u8; 32];
    a[31] = 1;
    b[31] = 2;
    let mut store = PlayerRecordStore::new();
    store.create(Pubkey::new_from_array(a), 1).unwrap();
    assert!(!store.contains(&Pubkey::new_from_array(b)));
    assert_eq!(store.create(Pubkey::new_from_array(b), 2), Ok(()));
    assert_eq!(store.get(&Pubkey::new_from_array(a)).unwrap().joined_timestamp, 1);
    assert_eq!(store.get(&Pubkey::new_from_array(b)).unwrap().joined_timestamp, 2);
}

#[test]
fn operations_on_unknown_player_are_refused() {
    let mut store = PlayerRecordStore::new();
    let mut board = initialize_leaderboard();
    store.create(key(1), 0).unwrap();
    let stranger = key(2);
    assert_eq!(store.set_name(&stranger, "Bob".to_string()), Err(GameError::NotFound));
    assert_eq!(store.apply_game_result(&stranger, 1, 1, 1, 1, 1, 1), Err(GameError::NotFound));
    assert!(matches!(
        store.submit(&mut board, &stranger, 10, 0, 0, 0, 0, 1),
        Err(GameError::NotFound)
    ));
    assert!(matches!(store.claim(&stranger, 0), Err(GameError::NotFound)));
    assert_eq!(board.count, 0);
    assert_eq!(store.get(&key(1)).unwrap().games_played, 0);
}

#[test]
fn store_renames_one_player_only() {
    let mut store = PlayerRecordStore::new();
    store.create(key(1), 0).unwrap();
    store.create(key(2), 0).unwrap();
    assert_eq!(store.set_name(&key(2), "Ada".to_string()), Ok(()));
    assert_eq!(store.get(&key(2)).unwrap().name, "Ada");
    assert_eq!(store.get(&key(1)).unwrap().name, "");
    assert_eq!(store.set_name(&key(2), "n".repeat(33)), Err(GameError::NameTooLong));
    assert_eq!(store.get(&key(2)).unwrap().name, "Ada");
}

#[test]
fn store_applies_result_to_one_player_only() {
    let mut store = PlayerRecordStore::new();
    store.create(key(1), 0).unwrap();
    store.create(key(2), 0).unwrap();
    store.create(key(3), 0).unwrap();
    assert_eq!(store.apply_game_result(&key(2), 8, 1, 2, 3, 4, 77), Ok(()));
    let touched = store.get(&key(2)).unwrap();
    assert_eq!(touched.games_played, 1);
    assert_eq!(touched.total_score, 8);
    assert_eq!(touched.total_coal, 1);
    assert_eq!(touched.total_ore, 2);
    assert_eq!(touched.total_diamonds, 3);
    assert_eq!(touched.total_enemies_defeated, 4);
    assert_eq!(touched.last_game_timestamp, 77);
    assert_eq!(store.get(&key(1)).unwrap().games_played, 0);
    assert_eq!(store.get(&key(3)).unwrap().games_played, 0);
}

#[test]
fn create_then_submit() {
    let p = key(1);
    let mut store = PlayerRecordStore::new();
    let mut board = initialize_leaderboard();
    store.create(p, 5).unwrap();
    let event = store.submit(&mut board, &p, 50, 2, 1, 3, 1, 60).unwrap();
    let record = store.get(&p).unwrap();
    assert_eq!(record.games_played, 1);
    assert_eq!(record.total_score, 50);
    assert_eq!(record.high_score, 50);
    assert_eq!(record.total_diamonds, 3);
    assert_eq!(board.count, 1);
    assert_eq!(board.top_scores[0].player, p);
    assert_eq!(board.top_scores[0].score, 50);
    assert_eq!(event.player, p);
    assert_eq!(event.timestamp, 60);
}

#[test]
fn submit_to_store_with_zero_score() {
    let p = key(1);
    let mut store = PlayerRecordStore::new();
    let mut board = initialize_leaderboard();
    store.create(p, 5).unwrap();
    store.submit(&mut board, &p, 0, 1, 1, 1, 1, 60).unwrap();
    assert_eq!(board.count, 0);
    assert_eq!(store.get(&p).unwrap().games_played, 1);
}

#[test]
fn submit_to_store_that_overflows() {
    let p = key(1);
    let mut store = PlayerRecordStore::new();
    let mut board = initialize_leaderboard();
    store.create(p, 5).unwrap();
    store.submit(&mut board, &p, u64::MAX, 0, 0, 0, 0, 60).unwrap();
    let again = store.submit(&mut board, &p, 1, 9, 9, 9, 9, 61);
    assert!(matches!(again, Err(GameError::CounterOverflow)));
    let record = store.get(&p).unwrap();
    assert_eq!(record.games_played, 1);
    assert_eq!(record.total_coal, 0);
    assert_eq!(record.last_game_timestamp, 60);
    assert_eq!(board.count, 1);
}

#[test]
fn claim_through_the_store() {
    let p = key(1);
    let mut store = PlayerRecordStore::new();
    let mut board = initialize_leaderboard();
    store.create(p, 5).unwrap();
    store.submit(&mut board, &p, 10, 0, 0, 10, 0, 6).unwrap();
    let request = store.claim(&p, 4).unwrap();
    assert_eq!(request.recipient, p);
    assert_eq!(request.unit_amount, 4_000_000_000);
    assert_eq!(store.get(&p).unwrap().diamonds_claimed, 4);
    assert!(matches!(store.claim(&p, 7), Err(GameError::InsufficientClaimable)));
    assert_eq!(store.get(&p).unwrap().diamonds_claimed, 4);
    assert_eq!(store.settle(&p, &request, true), Ok(()));
    assert_eq!(store.get(&p).unwrap().diamonds_claimed, 4);
    assert_eq!(store.settle(&p, &request, false), Err(GameError::IssuanceFailed));
    assert_eq!(store.get(&p).unwrap().diamonds_claimed, 0);
    assert_eq!(store.settle(&key(9), &request, true), Err(GameError::NotFound));
}
