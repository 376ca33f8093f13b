use sim_validator_assignment::config::{seats_per_stake, Config};
use sim_validator_assignment::error::SimError;
use sim_validator_assignment::seat::Seat;
use sim_validator_assignment::validator::{
    new_ordered_partial_seats, new_ordered_seats, parse_raw_validator_data, RawValidatorData,
};

fn new_test_raw_validator_data() -> Vec<RawValidatorData> {
    let stakes_and_flags: Vec<(u128, bool)> = vec![
        // Stake covers a full number of seats.
        (500, false),
        // Stake is eligible for seats and there is a remainder (partial seat).
        (310, true),
        // Stake is not sufficient for a seat.
        (90, false),
        // Some more validators, to have enough for running tests.
        (100, true),
        (100, false),
        (100, false),
        (100, false),
        (100, false),
        (100, false),
        (100, false),
        (100, false),
        (100, false),
    ];
    stakes_and_flags
        .into_iter()
        .enumerate()
        .map(|(i, (stake, is_malicious))| RawValidatorData {
            account_id: format!("validator_{i}"),
            stake,
            is_malicious,
        })
        .collect()
}

#[test]
fn test_seats_per_stake() {
    let stake_per_seat = 100;
    assert_eq!(seats_per_stake(20, stake_per_seat), 0);
    assert_eq!(seats_per_stake(100, stake_per_seat), 1);
    assert_eq!(seats_per_stake(530, stake_per_seat), 5);
}

#[test]
fn config_test_seats_per_stake() {
    let config = Config::new_mock(false);
    assert_eq!(config.seats_per_stake(20), 0);
    assert_eq!(config.seats_per_stake(100), 1);
    assert_eq!(config.seats_per_stake(530), 5);
}

#[test]
fn test_total_seats() {
    let config = Config::new_mock(false);
    assert_eq!(config.total_seats(), 8);
}

#[test]
fn config_test_total_seats() {
    let config = Config::new_mock(false);
    assert_eq!(config.total_seats(), 8);
}

#[test]
fn test_collect_seats_for_shard() {
    let config = Config::new_mock(false);
    let (_, validators) =
        parse_raw_validator_data(&config, &new_test_raw_validator_data()).unwrap();
    // Using ordered seats as input to have a deterministic result of
    // `collect_seats_for_shard`.
    let seats = new_ordered_seats(&validators);
    // Seat counts are {5, 3, 0, 1, ..., 1}, so the ordered pool starts with
    // five seats of validator 0, three of validator 1, then one per validator
    // from index 3 on.
    assert_eq!(seats.len(), 17);

    let shard_0 = config.collect_seats_for_shard(0, &seats).unwrap();
    assert_eq!(shard_0, vec![Seat::new(&validators[0]), Seat::new(&validators[0])]);

    let shard_1 = config.collect_seats_for_shard(1, &seats).unwrap();
    assert_eq!(shard_1, vec![Seat::new(&validators[0]), Seat::new(&validators[0])]);

    let shard_2 = config.collect_seats_for_shard(2, &seats).unwrap();
    assert_eq!(shard_2, vec![Seat::new(&validators[0]), Seat::new(&validators[1])]);

    let shard_3 = config.collect_seats_for_shard(3, &seats).unwrap();
    assert_eq!(shard_3, vec![Seat::new(&validators[1]), Seat::new(&validators[1])]);
}

#[test]
fn config_test_collect_seats_for_shard() {
    let config = Config::new_mock(false);
    let (_, validators) =
        parse_raw_validator_data(&config, &new_test_raw_validator_data()).unwrap();
    let seats = new_ordered_seats(&validators);

    for shard_idx in 0..4 {
        let shard_seats = config.collect_seats_for_shard(shard_idx, &seats).unwrap();
        assert_eq!(shard_seats.len(), 2);
        assert_eq!(&shard_seats[..], &seats[shard_idx * 2..shard_idx * 2 + 2]);
    }
}

#[test]
fn test_collect_seats_for_shard_errors() {
    let config = Config::new_mock(false);
    let (_, validators) =
        parse_raw_validator_data(&config, &new_test_raw_validator_data()).unwrap();
    let seats = new_ordered_seats(&validators);

    assert_eq!(
        config.collect_seats_for_shard(4, &seats),
        Err(SimError::InvalidShardIndex { shard_idx: 4, num_shards: 4 })
    );
    assert_eq!(
        config.collect_seats_for_shard(0, &Vec::new()),
        Err(SimError::InsufficientSeats { available: 0, required: 8 })
    );
}

#[test]
fn config_test_collect_seats_for_shard_errors() {
    let config = Config::new_mock(false);
    let (_, validators) =
        parse_raw_validator_data(&config, &new_test_raw_validator_data()).unwrap();
    let seats = new_ordered_seats(&validators);

    assert!(config.collect_seats_for_shard(4, &seats).is_err());
    assert!(config.collect_seats_for_shard(0, &Vec::new()).is_err());
}

#[test]
fn test_collect_partial_seats_for_shard() {
    let mut config = Config::new_mock(true);
    config.stake_per_seat = 90;
    let (_, validators) =
        parse_raw_validator_data(&config, &new_test_raw_validator_data()).unwrap();
    // Using ordered partial seats as input to have a deterministic result of
    // `collect_partial_seats_for_shard`.
    let partial_seats = new_ordered_partial_seats(&validators, config.stake_per_seat);
    // Remainders at seat price 90 are {50, 40, 0, 10, ..., 10}: every
    // validator but index 2 holds a partial seat.
    assert_eq!(partial_seats.len(), 11);

    // Shard `i` receives the partial seats at positions `i`, `i + 4`, ...
    let expected: Vec<Vec<usize>> =
        vec![vec![0, 5, 9], vec![1, 6, 10], vec![3, 7, 11], vec![4, 8]];
    for shard_idx in 0..4 {
        let assignment = config
            .collect_partial_seats_for_shard(shard_idx, &partial_seats)
            .unwrap();
        let validator_indices: Vec<usize> =
            assignment.iter().map(|ps| ps.validator_idx).collect();
        assert_eq!(validator_indices, expected[shard_idx]);
    }
    // Spot-check the carried weights of shard 0: validator 0 leaves 500 % 90,
    // validators 5 and 9 leave 100 % 90.
    let shard_0 = config.collect_partial_seats_for_shard(0, &partial_seats).unwrap();
    let weights: Vec<u128> = shard_0.iter().map(|ps| ps.weight).collect();
    assert_eq!(weights, vec![50, 10, 10]);
}

#[test]
fn test_collect_partial_seats_for_shard_errors() {
    let config = Config::new_mock(true);
    let (_, validators) =
        parse_raw_validator_data(&config, &new_test_raw_validator_data()).unwrap();
    let partial_seats = new_ordered_partial_seats(&validators, config.stake_per_seat);

    assert_eq!(
        config.collect_partial_seats_for_shard(4, &partial_seats),
        Err(SimError::InvalidShardIndex { shard_idx: 4, num_shards: 4 })
    );
}
