use monty_hall::doors::{Doors, SimError};
use monty_hall::game::Game;
use monty_hall::strategy::{AlwaysStay, ChangeAllTheTime, ChangeLastRound, Player};
use monty_hall::trial::{run_test, run_test_with};

fn win_rate<T: Player + Copy>(size: usize, player: T, n: usize) -> f64 {
    let mut wins = 0usize;
    for _ in 0..n {
        if run_test(size, player).unwrap() {
            wins += 1;
        }
    }
    wins as f64 / n as f64
}

#[test]
fn forced_three_doors_stay_loses() {
    // pick draw 1 gives pick 1, winner draw 0 gives the prize behind door 0
    let mut game = Game::create_with(3, AlwaysStay, 1, 0).unwrap();
    assert!(!game.turn_with(0, 0));
    assert!(!game.doors().is_open(2));
    assert_eq!(game.doors().player_pick(), 1);
    assert!(!game.has_won());
}

#[test]
fn forced_three_doors_switch_wins() {
    let mut game = Game::create_with(3, ChangeLastRound, 1, 0).unwrap();
    assert!(!game.turn_with(0, 0));
    assert!(!game.doors().is_open(2));
    assert_eq!(game.doors().player_pick(), 0);
    assert!(game.has_won());

    let mut game = Game::create_with(3, ChangeAllTheTime, 1, 0).unwrap();
    assert!(!game.turn_with(5, 9));
    assert_eq!(game.doors().player_pick(), 0);
    assert!(game.has_won());
}

#[test]
fn three_doors_play_one_round() {
    let mut game = Game::create(3, AlwaysStay).unwrap();
    assert_eq!(game.play_out(), 1);
    assert_eq!(game.rounds(), 1);
    assert_eq!(game.doors().open_count(), 2);

    let mut game = Game::create(3, ChangeLastRound).unwrap();
    assert!(!game.turn());
    assert_eq!(game.rounds(), 1);
}

#[test]
fn trial_takes_size_minus_two_rounds() {
    for size in 3..15usize {
        let mut game = Game::create(size, AlwaysStay).unwrap();
        assert_eq!(game.play_out(), size - 2);
        assert_eq!(game.doors().open_count(), 2);
        let mut game = Game::create(size, ChangeLastRound).unwrap();
        assert_eq!(game.play_out(), size - 2);
        assert_eq!(game.rounds(), size - 2);
        let mut game = Game::create(size, ChangeAllTheTime).unwrap();
        assert_eq!(game.play_out(), size - 2);
        assert_eq!(game.doors().open_count(), 2);
    }
}

#[test]
fn prize_and_pick_stay_open_every_round() {
    for size in 3..12usize {
        for winner_draw in 0..size {
            let mut game = Game::create_with(size, ChangeAllTheTime, 1, winner_draw).unwrap();
            let mut more = true;
            while more {
                more = game.turn();
                assert!(game.doors().is_open(winner_draw));
                assert!(game.doors().is_open(game.doors().player_pick()));
            }
            assert!(game.has_won() == (game.doors().player_pick() == winner_draw));
        }
    }
}

#[test]
fn always_stay_wins_a_third_of_three_door_games() {
    let rate = win_rate(3, AlwaysStay, 30000);
    assert!((rate - 1.0 / 3.0).abs() < 0.03, "rate {}", rate);
}

#[test]
fn always_stay_wins_a_tenth_of_ten_door_games() {
    let rate = win_rate(10, AlwaysStay, 30000);
    assert!((rate - 0.1).abs() < 0.02, "rate {}", rate);
}

#[test]
fn change_last_round_wins_two_thirds_of_three_door_games() {
    let rate = win_rate(3, ChangeLastRound, 30000);
    assert!((rate - 2.0 / 3.0).abs() < 0.03, "rate {}", rate);
}

#[test]
fn change_last_round_wins_nine_tenths_of_ten_door_games() {
    let rate = win_rate(10, ChangeLastRound, 30000);
    assert!((rate - 0.9).abs() < 0.02, "rate {}", rate);
}

#[test]
fn change_all_the_time_wins_two_thirds_of_three_door_games() {
    let rate = win_rate(3, ChangeAllTheTime, 30000);
    assert!((rate - 2.0 / 3.0).abs() < 0.03, "rate {}", rate);
}

#[test]
fn scripted_trials_repeat() {
    let draws: Vec<usize> = vec![7, 3, 11, 2, 5, 8, 13, 1, 4, 6, 9, 0, 12, 10];
    for size in 3..9usize {
        let a = run_test_with(size, ChangeAllTheTime, &draws).unwrap();
        let b = run_test_with(size, ChangeAllTheTime, &draws).unwrap();
        assert_eq!(a, b);
        let mut longer = draws.clone();
        longer.extend_from_slice(&[99, 98, 97]);
        if 2 * size - 2 <= draws.len() {
            assert_eq!(run_test_with(size, ChangeAllTheTime, &longer).unwrap(), a);
        }
    }
}

#[test]
fn scripted_four_door_trials() {
    // pick 1, prize 0; round one reveals door 2, round two door 3
    let draws: Vec<usize> = vec![1, 0, 0, 1, 0, 0];
    assert_eq!(run_test_with(4, AlwaysStay, &draws), Ok(false));
    assert_eq!(run_test_with(4, ChangeLastRound, &draws), Ok(true));
    // switching each round: to door 3 after the first reveal, then to door 0
    assert_eq!(run_test_with(4, ChangeAllTheTime, &draws), Ok(true));
    // past the end of the draws every draw is 0: pick 0, prize 0
    assert_eq!(run_test_with(4, AlwaysStay, &Vec::new()), Ok(true));
    assert_eq!(run_test_with(4, ChangeLastRound, &Vec::new()), Ok(false));
}

#[test]
fn scripted_large_draws_wrap() {
    let draws: Vec<usize> = vec![usize::MAX, usize::MAX - 1, usize::MAX];
    // usize::MAX % 3 == 0 and (usize::MAX - 1) % 3 == 2
    let mut game = Game::create_with(3, AlwaysStay, usize::MAX, usize::MAX - 1).unwrap();
    assert_eq!(game.doors().player_pick(), 0);
    game.turn_with(usize::MAX, 0);
    assert!(!game.doors().is_open(1));
    assert!(!game.has_won());
    assert_eq!(run_test_with(3, AlwaysStay, &draws), Ok(false));
    assert_eq!(run_test_with(3, ChangeLastRound, &draws), Ok(true));
}

#[test]
fn too_few_doors_are_rejected() {
    for size in 0..3usize {
        assert_eq!(run_test(size, AlwaysStay), Err(SimError::InvalidDoorCount));
        assert_eq!(run_test_with(size, ChangeLastRound, &vec![1, 2]), Err(SimError::InvalidDoorCount));
        assert!(matches!(Game::create(size, ChangeAllTheTime), Err(SimError::InvalidDoorCount)));
        assert!(matches!(Game::create_with(size, AlwaysStay, 0, 0), Err(SimError::InvalidDoorCount)));
    }
    assert!(matches!(Doors::create_with(2, 1, 0), Err(SimError::InvalidDoorCount)));
    assert!(matches!(Doors::create(1, 0), Err(SimError::InvalidDoorCount)));
}

#[test]
fn fresh_doors_are_all_open() {
    let doors = Doors::create_with(5, 2, 7).unwrap();
    assert_eq!(doors.size(), 5);
    assert_eq!(doors.open_count(), 5);
    assert_eq!(doors.player_pick(), 2);
    assert!(doors.pick_is_winner());
    assert!(!doors.is_open(5));
    assert_eq!(doors.open_ids_except(2, 4), vec![0, 1, 3]);
    assert_eq!(doors.open_ids_except(0, 0), vec![1, 2, 3, 4]);

    let doors = Doors::create(6, 5).unwrap();
    assert_eq!(doors.open_count(), 6);
    assert_eq!(doors.player_pick(), 5);
    assert!((0..6).all(|i| doors.is_open(i)));
}

#[test]
fn strategies_decide_on_the_doors() {
    // four doors, pick 1, prize 0; after one reveal three are open
    let mut game = Game::create_with(4, AlwaysStay, 1, 0).unwrap();
    assert!(game.turn_with(1, 0));
    // revealable were 2 and 3; draw 1 closes door 3
    assert!(!game.doors().is_open(3));
    let doors = game.doors();
    assert_eq!(AlwaysStay.change_pick(doors, 0), None);
    assert_eq!(ChangeLastRound.change_pick(doors, 0), None);
    assert_eq!(ChangeAllTheTime.change_pick(doors, 0), Some(0));
    assert_eq!(ChangeAllTheTime.change_pick(doors, 1), Some(2));
    assert!(!game.turn_with(0, 0));
    let doors = game.doors();
    assert_eq!(ChangeLastRound.change_pick(doors, 0), Some(0));
    assert_eq!(ChangeAllTheTime.change_pick(doors, 3), Some(0));
}
