use sim_validator_assignment::config::Config;
use sim_validator_assignment::error::SimError;
use sim_validator_assignment::partial_seat::PartialSeat;
use sim_validator_assignment::rational::Fraction;
use sim_validator_assignment::seat::Seat;
use sim_validator_assignment::shard::Shard;

fn seat(validator_idx: usize, is_malicious: bool) -> Seat {
    Seat { validator_idx, is_malicious }
}

fn partial(validator_idx: usize, is_malicious: bool, weight: u128) -> PartialSeat {
    PartialSeat { validator_idx, is_malicious, weight }
}

#[test]
fn test_shard_new_aggregates_stake() {
    let config = Config::new_mock(false);
    let seats = vec![seat(0, false), seat(1, true)];
    let partial_seats = vec![partial(2, true, 40), partial(3, false, 10)];
    let shard = Shard::new(&config, seats, partial_seats).unwrap();
    assert_eq!(shard.stake, 250);
    assert_eq!(shard.malicious_stake, 140);
}

#[test]
fn test_shard_new_wrong_seat_count() {
    let config = Config::new_mock(false);
    let seats = vec![seat(0, false)];
    assert!(matches!(
        Shard::new(&config, seats, Vec::new()),
        Err(SimError::WrongShardSeatCount { expected: 2, actual: 1 })
    ));
}

// A shard with one malicious and one honest full seat (malicious stake 100 of
// 200, ratio 1/2 > 1/3) is flagged corrupted.
#[test]
fn test_shard_is_corrupted_above_threshold() {
    let config = Config::new_mock(false);
    let seats = vec![seat(0, true), seat(1, false)];
    let shard = Shard::new(&config, seats, Vec::new()).unwrap();
    assert_eq!(shard.stake, 200);
    assert_eq!(shard.malicious_stake, 100);
    assert!(shard.is_corrupted(&config));
}

// A malicious-stake fraction exactly equal to the threshold is not
// corruption: the comparison is strictly greater-than.
#[test]
fn test_shard_at_threshold_is_not_corrupted() {
    let mut config = Config::new_mock(false);
    config.seats_per_shard = 3;
    // One malicious seat out of three: exactly the threshold of 1/3.
    let seats = vec![seat(0, true), seat(1, false), seat(2, false)];
    let shard = Shard::new(&config, seats, Vec::new()).unwrap();
    assert_eq!(shard.stake, 300);
    assert_eq!(shard.malicious_stake, 100);
    assert!(!shard.is_corrupted(&config));
}

// One unit of malicious stake above the threshold corrupts the shard.
#[test]
fn test_shard_one_unit_above_threshold_is_corrupted() {
    let mut config = Config::new_mock(false);
    config.seats_per_shard = 3;
    // Three full seats plus a malicious partial seat of weight 1:
    // 101 / 301 > 1/3 because 101 * 3 > 1 * 301.
    let seats = vec![seat(0, true), seat(1, false), seat(2, false)];
    let partial_seats = vec![partial(3, true, 1)];
    let shard = Shard::new(&config, seats, partial_seats).unwrap();
    assert_eq!(shard.stake, 301);
    assert_eq!(shard.malicious_stake, 101);
    assert!(shard.is_corrupted(&config));
}

// A shard with zero assigned stake has no malicious-stake fraction and is
// treated as not corrupted.
#[test]
fn test_shard_with_zero_stake_is_not_corrupted() {
    let mut config = Config::new_mock(false);
    config.seats_per_shard = 0;
    let shard = Shard::new(&config, Vec::new(), Vec::new()).unwrap();
    assert_eq!(shard.stake, 0);
    assert!(!shard.is_corrupted(&config));
}

#[test]
fn test_fraction_new_reduced() {
    assert_eq!(Fraction::new_reduced(4, 8), Fraction::new(1, 2));
    assert_eq!(Fraction::new_reduced(500, 1800), Fraction::new(5, 18));
    assert_eq!(Fraction::new_reduced(0, 7), Fraction::new(0, 1));
    assert_eq!(Fraction::new_reduced(3, 3), Fraction::new(1, 1));
}
