use armored_core_simulator::config::ConfigError;
use armored_core_simulator::pilot::{Pilot, BLUE_RAIN, NINEBREAKER};
use armored_core_simulator::report::{append_decimal, round_banner, summary_lines, survivor_line};

fn decimal(n: u64) -> String {
    let mut text = String::new();
    append_decimal(&mut text, n);
    text
}

#[test]
fn append_decimal_writes_single_digits() {
    for n in 0..10u64 {
        assert_eq!(decimal(n), n.to_string());
    }
    assert_eq!(decimal(0), "0");
    assert_eq!(decimal(7), "7");
}

#[test]
fn append_decimal_writes_digits_in_reading_order() {
    assert_eq!(decimal(10), "10");
    assert_eq!(decimal(6000), "6000");
    assert_eq!(decimal(1234567890), "1234567890");
    assert_eq!(decimal(u64::MAX), "18446744073709551615");
}

#[test]
fn append_decimal_keeps_what_is_there() {
    let mut text = String::from("n = ");
    append_decimal(&mut text, 42);
    append_decimal(&mut text, 0);
    assert_eq!(text, "n = 420");
}

#[test]
fn round_banner_names_the_round() {
    assert_eq!(round_banner(1), "Begin round 1");
    assert_eq!(round_banner(12), "Begin round 12");
    assert_eq!(round_banner(0), "Begin round 0");
}

#[test]
fn survivor_line_names_the_survivor() {
    assert_eq!(survivor_line("Blue Rain"), "Blue Rain survived.");
    assert_eq!(survivor_line(""), " survived.");
}

#[test]
fn summary_of_a_composed_pilot() {
    let mut pilot = Pilot::new(BLUE_RAIN);
    pilot.compose();
    assert_eq!(summary_lines(&pilot), vec!["Pilot Blue Rain with 0 wins", "Armor: 6000"]);
}

#[test]
fn summary_counts_wins() {
    let mut pilot = Pilot::new(NINEBREAKER);
    pilot.compose();
    pilot.record_win();
    pilot.record_win();
    assert_eq!(summary_lines(&pilot), vec!["Pilot Ninebreaker with 2 wins", "Armor: 11200"]);
}

#[test]
fn summary_of_a_pilot_without_parts() {
    let pilot = Pilot::new("Nobody");
    assert_eq!(summary_lines(&pilot), vec!["Pilot Nobody with 0 wins", "Armor: 0"]);
}

#[test]
fn diagnostics_name_the_rejected_setting() {
    assert_eq!(ConfigError::InvalidWinTarget.setting(), "max_wins");
    assert_eq!(ConfigError::InvalidFrameCount.setting(), "frame_count");
    assert_eq!(ConfigError::InvalidFrameDuration.setting(), "frame_duration");
    assert_eq!(
        ConfigError::InvalidWinTarget.diagnostic(),
        "invalid setting: max_wins must be greater than zero"
    );
    assert_eq!(
        ConfigError::InvalidFrameCount.diagnostic(),
        "invalid setting: frame_count must be greater than zero"
    );
    assert_eq!(
        ConfigError::InvalidFrameDuration.diagnostic(),
        "invalid setting: frame_duration must be greater than zero"
    );
}
