use anchor_lang::prelude::Pubkey;
use darkmine::{
    initialize_leaderboard, initialize_player, set_player_name, submit_game_result, GameError,
    PlayerAccount, MAX_NAME_BYTES,
};

fn key(tag: u8) -> Pubkey {
    Pubkey::new_from_array([tag; 32])
}

fn counters(a: &PlayerAccount) -> [u64; 8] {
    [
        a.games_played,
        a.total_score,
        a.high_score,
        a.total_coal,
        a.total_ore,
        a.total_diamonds,
        a.diamonds_claimed,
        a.total_enemies_defeated,
    ]
}

#[test]
fn new_record_is_blank() {
    let account = initialize_player(key(1), 1_700_000_000);
    assert_eq!(account.player, key(1));
    assert_eq!(account.name, "");
    assert_eq!(counters(&account), [0; 8]);
    assert_eq!(account.joined_timestamp, 1_700_000_000);
    assert_eq!(account.last_game_timestamp, 0);
    assert_eq!(account.claimable_diamonds(), 0);
}

#[test]
fn name_round_trip() {
    let mut account = initialize_player(key(1), 0);
    assert_eq!(set_player_name(&mut account, "Ada".to_string()), Ok(()));
    assert_eq!(account.name, "Ada");
}

#[test]
fn name_longer_than_limit_is_refused() {
    let mut account = initialize_player(key(1), 0);
    set_player_name(&mut account, "Ada".to_string()).unwrap();
    let long = "x".repeat(33);
    assert_eq!(set_player_name(&mut account, long), Err(GameError::NameTooLong));
    assert_eq!(account.name, "Ada");
    let longer = "y".repeat(200);
    assert_eq!(set_player_name(&mut account, longer), Err(GameError::NameTooLong));
    assert_eq!(account.name, "Ada");
}

#[test]
fn name_at_limit_is_taken() {
    let mut account = initialize_player(key(1), 0);
    let name = "z".repeat(MAX_NAME_BYTES);
    assert_eq!(set_player_name(&mut account, name.clone()), Ok(()));
    assert_eq!(account.name, name);
    assert_eq!(set_player_name(&mut account, String::new()), Ok(()));
    assert_eq!(account.name, "");
}

#[test]
fn name_limit_counts_bytes() {
    let mut account = initialize_player(key(1), 0);
    let sixteen = "é".repeat(16);
    assert_eq!(sixteen.len(), 32);
    assert_eq!(set_player_name(&mut account, sixteen.clone()), Ok(()));
    assert_eq!(account.name, sixteen);
    let seventeen = "é".repeat(17);
    assert_eq!(set_player_name(&mut account, seventeen), Err(GameError::NameTooLong));
    assert_eq!(account.name, sixteen);
}

#[test]
fn renaming_touches_nothing_else() {
    let mut account = initialize_player(key(1), 12);
    account.apply_game_result(9, 1, 2, 3, 4, 20).unwrap();
    let before = counters(&account);
    set_player_name(&mut account, "Grace".to_string()).unwrap();
    assert_eq!(counters(&account), before);
    assert_eq!(account.player, key(1));
    assert_eq!(account.joined_timestamp, 12);
    assert_eq!(account.last_game_timestamp, 20);
}

#[test]
fn game_result_adds_each_delta_once() {
    let mut account = initialize_player(key(1), 5);
    assert_eq!(account.apply_game_result(50, 2, 1, 3, 1, 100), Ok(()));
    assert_eq!(counters(&account), [1, 50, 50, 2, 1, 3, 0, 1]);
    assert_eq!(account.last_game_timestamp, 100);
    assert_eq!(account.apply_game_result(20, 10, 20, 30, 255, 200), Ok(()));
    assert_eq!(counters(&account), [2, 70, 50, 12, 21, 33, 0, 256]);
    assert_eq!(account.last_game_timestamp, 200);
    assert_eq!(account.joined_timestamp, 5);
    assert_eq!(account.player, key(1));
}

#[test]
fn high_score_is_a_running_maximum() {
    let mut account = initialize_player(key(1), 0);
    account.apply_game_result(30, 0, 0, 0, 0, 1).unwrap();
    assert_eq!(account.high_score, 30);
    account.apply_game_result(10, 0, 0, 0, 0, 2).unwrap();
    assert_eq!(account.high_score, 30);
    account.apply_game_result(30, 0, 0, 0, 0, 3).unwrap();
    assert_eq!(account.high_score, 30);
    account.apply_game_result(31, 0, 0, 0, 0, 4).unwrap();
    assert_eq!(account.high_score, 31);
    assert!(account.high_score <= account.total_score);
}

#[test]
fn game_with_nothing_still_counts() {
    let mut account = initialize_player(key(1), 0);
    account.apply_game_result(0, 0, 0, 0, 0, 9).unwrap();
    assert_eq!(counters(&account), [1, 0, 0, 0, 0, 0, 0, 0]);
    assert_eq!(account.last_game_timestamp, 9);
}

#[test]
fn overflow_of_any_counter_changes_nothing() {
    for which in 0..6 {
        let mut account = initialize_player(key(1), 3);
        account.apply_game_result(7, 1, 1, 1, 1, 4).unwrap();
        match which {
            0 => account.games_played = u64::MAX,
            1 => account.total_score = u64::MAX - 6,
            2 => account.total_coal = u64::MAX,
            3 => account.total_ore = u64::MAX,
            4 => account.total_diamonds = u64::MAX,
            _ => account.total_enemies_defeated = u64::MAX,
        }
        let before = counters(&account);
        let result = account.apply_game_result(7, 1, 1, 1, 1, 50);
        assert_eq!(result, Err(GameError::CounterOverflow));
        assert_eq!(counters(&account), before);
        assert_eq!(account.last_game_timestamp, 4);
    }
}

#[test]
fn counter_may_reach_the_largest_number() {
    let mut account = initialize_player(key(1), 0);
    account.total_score = u64::MAX - 7;
    account.high_score = 1;
    assert_eq!(account.apply_game_result(7, 0, 0, 0, 0, 1), Ok(()));
    assert_eq!(account.total_score, u64::MAX);
    assert_eq!(account.high_score, 7);
}

#[test]
fn submitting_updates_record_and_ranking() {
    let p = key(1);
    let mut account = initialize_player(p, 10);
    let mut board = initialize_leaderboard();
    let event = submit_game_result(&mut account, &mut board, 50, 2, 1, 3, 1, 99).unwrap();
    assert_eq!(account.games_played, 1);
    assert_eq!(account.total_score, 50);
    assert_eq!(account.high_score, 50);
    assert_eq!(account.total_coal, 2);
    assert_eq!(account.total_ore, 1);
    assert_eq!(account.total_diamonds, 3);
    assert_eq!(account.total_enemies_defeated, 1);
    assert_eq!(account.last_game_timestamp, 99);
    assert_eq!(board.count, 1);
    assert_eq!(board.top_scores[0].player, p);
    assert_eq!(board.top_scores[0].score, 50);
    assert_eq!(board.top_scores[0].timestamp, 99);
    assert_eq!(event.player, p);
    assert_eq!(event.score, 50);
    assert_eq!(event.coal_collected, 2);
    assert_eq!(event.ore_collected, 1);
    assert_eq!(event.diamonds_collected, 3);
    assert_eq!(event.enemies_defeated, 1);
    assert_eq!(event.timestamp, 99);
}

#[test]
fn submitting_zero_leaves_the_ranking_alone() {
    let mut account = initialize_player(key(1), 10);
    let mut board = initialize_leaderboard();
    submit_game_result(&mut account, &mut board, 5, 0, 0, 0, 0, 1).unwrap();
    let event = submit_game_result(&mut account, &mut board, 0, 4, 0, 0, 2, 2).unwrap();
    assert_eq!(event.score, 0);
    assert_eq!(account.games_played, 2);
    assert_eq!(account.total_coal, 4);
    assert_eq!(board.count, 1);
    assert_eq!(board.top_scores[0].score, 5);
    assert_eq!(board.top_scores[0].timestamp, 1);
    assert_eq!(board.top_scores[1].score, 0);
    assert_eq!(board.top_scores[1].timestamp, 0);
}

#[test]
fn failed_submission_touches_neither_record_nor_ranking() {
    let mut account = initialize_player(key(1), 10);
    let mut board = initialize_leaderboard();
    submit_game_result(&mut account, &mut board, 5, 0, 0, 0, 0, 1).unwrap();
    account.total_ore = u64::MAX;
    let before = counters(&account);
    let result = submit_game_result(&mut account, &mut board, 500, 1, 1, 1, 1, 2);
    assert!(matches!(result, Err(GameError::CounterOverflow)));
    assert_eq!(counters(&account), before);
    assert_eq!(account.last_game_timestamp, 1);
    assert_eq!(board.count, 1);
    assert_eq!(board.top_scores[0].score, 5);
}

#[test]
fn ranking_keeps_the_name_of_the_time() {
    let mut account = initialize_player(key(1), 10);
    let mut board = initialize_leaderboard();
    set_player_name(&mut account, "Ada".to_string()).unwrap();
    submit_game_result(&mut account, &mut board, 5, 0, 0, 0, 0, 1).unwrap();
    set_player_name(&mut account, "Grace".to_string()).unwrap();
    submit_game_result(&mut account, &mut board, 9, 0, 0, 0, 0, 2).unwrap();
    assert_eq!(board.count, 2);
    assert_eq!(&board.top_scores[0].player_name[..5], b"Grace");
    assert_eq!(board.top_scores[0].player_name[5], 0);
    assert_eq!(&board.top_scores[1].player_name[..3], b"Ada");
    assert_eq!(board.top_scores[1].player_name[3], 0);
}
