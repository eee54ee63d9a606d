use armored_core_simulator::config::{ConfigError, GameRules, STANDARD_MAX_WINS};
use armored_core_simulator::pilot::Pilot;
use armored_core_simulator::round::{find_first_winner, GameState, Phase};

fn pilot_with_wins(name: &str, wins: u32) -> Pilot {
    let mut pilot = Pilot::new(name);
    for _ in 0..wins {
        pilot.record_win();
    }
    pilot
}

#[test]
fn rules_reject_a_target_of_zero() {
    assert_eq!(GameRules::new(0).unwrap_err(), ConfigError::InvalidWinTarget);
}

#[test]
fn rules_keep_a_positive_target() {
    assert_eq!(GameRules::new(1).unwrap().max_wins(), 1);
    assert_eq!(GameRules::new(2).unwrap().max_wins(), 2);
    assert_eq!(GameRules::new(u32::MAX).unwrap().max_wins(), u32::MAX);
}

#[test]
fn standard_rules_end_at_two_wins() {
    assert_eq!(STANDARD_MAX_WINS, 2);
    assert_eq!(GameRules::standard().max_wins(), 2);
}

#[test]
fn a_new_match_has_not_started() {
    let state = GameState::new();
    assert_eq!(state.current_round(), 0);
    assert_eq!(state.surviving_pilot(), None);
    assert!(!state.is_concluded());
    assert_eq!(state.phase(), Phase::NotStarted);
}

#[test]
fn advance_round_counts_up_by_one() {
    let mut state = GameState::new();
    assert_eq!(state.advance_round(), Some(1));
    assert_eq!(state.phase(), Phase::RoundInProgress { round: 1 });
    assert_eq!(state.advance_round(), Some(2));
    assert_eq!(state.advance_round(), Some(3));
    assert_eq!(state.current_round(), 3);
    assert_eq!(state.phase(), Phase::RoundInProgress { round: 3 });
}

#[test]
fn evaluate_scores_without_pilots_changes_nothing() {
    let rules = GameRules::standard();
    let mut state = GameState::new();
    state.advance_round();
    assert!(!state.evaluate_scores(&rules, &[]));
    assert_eq!(state.current_round(), 1);
    assert_eq!(state.surviving_pilot(), None);
    assert_eq!(state.phase(), Phase::RoundInProgress { round: 1 });
}

#[test]
fn evaluate_scores_waits_for_the_target() {
    let rules = GameRules::new(2).unwrap();
    let mut state = GameState::new();
    state.advance_round();
    let pilots = [pilot_with_wins("Blue Rain", 1), pilot_with_wins("Ninebreaker", 0)];
    assert!(!state.evaluate_scores(&rules, &pilots));
    assert!(!state.is_concluded());
}

#[test]
fn evaluate_scores_concludes_at_the_target() {
    let rules = GameRules::new(2).unwrap();
    let mut state = GameState::new();
    state.advance_round();
    let pilots = [pilot_with_wins("Blue Rain", 1), pilot_with_wins("Ninebreaker", 2)];
    assert!(state.evaluate_scores(&rules, &pilots));
    assert!(state.is_concluded());
    assert_eq!(state.surviving_pilot(), Some("Ninebreaker"));
    assert_eq!(state.phase(), Phase::Concluded { winner: "Ninebreaker".to_string() });
    assert_eq!(state.current_round(), 1);
}

#[test]
fn evaluate_scores_asks_for_the_target_exactly() {
    let rules = GameRules::new(2).unwrap();
    let mut state = GameState::new();
    let pilots = [pilot_with_wins("Blue Rain", 3), pilot_with_wins("Ninebreaker", 1)];
    assert!(!state.evaluate_scores(&rules, &pilots));
    assert_eq!(state.surviving_pilot(), None);
}

#[test]
fn first_pilot_in_order_wins_a_tie() {
    let rules = GameRules::new(2).unwrap();
    let pilots = [pilot_with_wins("Blue Rain", 2), pilot_with_wins("Ninebreaker", 2)];
    let mut state = GameState::new();
    state.advance_round();
    assert!(state.evaluate_scores(&rules, &pilots));
    assert_eq!(state.surviving_pilot(), Some("Blue Rain"));

    let swapped = [pilot_with_wins("Ninebreaker", 2), pilot_with_wins("Blue Rain", 2)];
    let mut state = GameState::new();
    state.advance_round();
    assert!(state.evaluate_scores(&rules, &swapped));
    assert_eq!(state.surviving_pilot(), Some("Ninebreaker"));
}

#[test]
fn first_pilot_in_order_wins_a_tie_behind_others() {
    let rules = GameRules::new(3).unwrap();
    let pilots = [
        pilot_with_wins("A", 0),
        pilot_with_wins("B", 4),
        pilot_with_wins("C", 3),
        pilot_with_wins("D", 3),
    ];
    assert_eq!(find_first_winner(&rules, &pilots), Some(2));
    let mut state = GameState::new();
    assert!(state.evaluate_scores(&rules, &pilots));
    assert_eq!(state.surviving_pilot(), Some("C"));
}

#[test]
fn find_first_winner_finds_none_without_a_match() {
    let rules = GameRules::new(1).unwrap();
    assert_eq!(find_first_winner(&rules, &[]), None);
    let pilots = [pilot_with_wins("A", 0), pilot_with_wins("B", 2)];
    assert_eq!(find_first_winner(&rules, &pilots), None);
}

#[test]
fn the_survivor_is_written_once() {
    let rules = GameRules::new(1).unwrap();
    let mut state = GameState::new();
    state.advance_round();
    assert!(state.evaluate_scores(&rules, &[pilot_with_wins("Ninebreaker", 1)]));
    assert!(state.evaluate_scores(&rules, &[pilot_with_wins("Blue Rain", 1)]));
    assert_eq!(state.surviving_pilot(), Some("Ninebreaker"));
    assert!(state.evaluate_scores(&rules, &[]));
    assert_eq!(state.surviving_pilot(), Some("Ninebreaker"));
}

#[test]
fn a_concluded_match_begins_no_round() {
    let rules = GameRules::new(1).unwrap();
    let mut state = GameState::new();
    state.advance_round();
    state.advance_round();
    state.evaluate_scores(&rules, &[pilot_with_wins("Blue Rain", 1)]);
    assert_eq!(state.advance_round(), None);
    assert_eq!(state.current_round(), 2);
    assert_eq!(state.phase(), Phase::Concluded { winner: "Blue Rain".to_string() });
}
