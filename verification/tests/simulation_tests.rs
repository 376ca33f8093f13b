use sim_validator_assignment::config::Config;
use sim_validator_assignment::error::SimError;
use sim_validator_assignment::mocks::{mock_validator_data, new_validators};
use sim_validator_assignment::partial_seat::{PartialSeat, ShuffledPartialSeats};
use sim_validator_assignment::protocol::{parse_stake, NearProtocol, ValidatorData};
use sim_validator_assignment::run::simulate;
use sim_validator_assignment::seat::{Seat, ShuffledSeats};
use sim_validator_assignment::stats::{partial_seat_stats, sum_partial_seat_weights};
use sim_validator_assignment::validator::{
    new_ordered_seats, parse_raw_validator_data, RawValidatorData, Validator,
};

fn uniform_validators(config: &Config, num: u64, num_malicious: u64) -> Vec<Validator> {
    let raw = new_validators(num, config.stake_per_seat, num_malicious);
    let (_, validators) = parse_raw_validator_data(config, &raw).unwrap();
    validators
}

#[test]
fn test_new_validators() {
    let validators = new_validators(10, 100, 10 / 3);
    assert_eq!(validators.len(), 10);
    for (i, v) in validators.iter().enumerate() {
        assert_eq!(v.account_id, format!("validator_{i}"));
        assert_eq!(v.stake, 100);
        assert_eq!(v.is_malicious, i < 3);
    }
}

#[test]
fn test_mock_validator_data() {
    let validators = mock_validator_data();
    assert_eq!(validators.len(), 4000);
    assert_eq!(validators.iter().filter(|v| v.is_malicious).count(), 1333);
    assert!(validators.iter().all(|v| v.stake == 1));
}

// Shuffling preserves the multiset of seats: only the order changes.
#[test]
fn test_shuffle_preserves_seat_multiset() {
    let config = Config::new_mock(false);
    let validators = uniform_validators(&config, 20, 7);
    let seats = new_ordered_seats(&validators);
    let mut counts_before = vec![0usize; 20];
    for s in seats.iter() {
        counts_before[s.validator_idx] += 1;
    }

    let shuffled = ShuffledSeats::new(seats.clone());
    let mut counts_after = vec![0usize; 20];
    for s in shuffled.get_seats().iter() {
        counts_after[s.validator_idx] += 1;
    }
    assert_eq!(shuffled.get_seats().len(), seats.len());
    assert_eq!(counts_before, counts_after);
}

#[test]
fn test_shuffle_preserves_partial_seat_multiset() {
    let partial_seats: Vec<PartialSeat> = (0..50)
        .map(|i| PartialSeat { validator_idx: i, is_malicious: i % 3 == 0, weight: 1 + i as u128 })
        .collect();
    let shuffled = ShuffledPartialSeats::new(partial_seats.clone());
    let mut weights_before: Vec<u128> = partial_seats.iter().map(|p| p.weight).collect();
    let mut weights_after: Vec<u128> =
        shuffled.get_partial_seats().iter().map(|p| p.weight).collect();
    weights_before.sort();
    weights_after.sort();
    assert_eq!(weights_before, weights_after);
}

#[test]
fn test_simulate_summary_shape() {
    let config = Config::new_mock(true);
    // 20 validators with one full seat and no remainder each.
    let validators = uniform_validators(&config, 20, 7);
    let summary = simulate(&config, &validators).unwrap();
    assert_eq!(summary.num_blocks, 1000);
    assert_eq!(summary.num_shards, 4);
    assert_eq!(summary.num_simulated_shards, 4000);
    assert!(summary.num_corrupted_shards <= summary.num_simulated_shards);
}

// With every validator malicious, every shard of every block is corrupted,
// whatever permutation the shuffle draws.
#[test]
fn test_simulate_all_malicious() {
    let mut config = Config::new_mock(false);
    config.num_blocks = 10;
    let validators = uniform_validators(&config, 8, 8);
    let summary = simulate(&config, &validators).unwrap();
    assert_eq!(summary.num_simulated_shards, 40);
    assert_eq!(summary.num_corrupted_shards, 40);
}

// With no validator malicious, no shard is ever corrupted.
#[test]
fn test_simulate_all_honest() {
    let mut config = Config::new_mock(true);
    config.num_blocks = 10;
    let validators = uniform_validators(&config, 8, 0);
    let summary = simulate(&config, &validators).unwrap();
    assert_eq!(summary.num_corrupted_shards, 0);
}

// Requesting a simulation whose topology the population cannot fill fails
// fast with an insufficient-seats error.
#[test]
fn test_simulate_insufficient_seats() {
    let config = Config::new_mock(false);
    // 5 single-seat validators cannot fill 4 shards of 2 seats.
    let validators = uniform_validators(&config, 5, 0);
    assert_eq!(
        simulate(&config, &validators),
        Err(SimError::InsufficientSeats { available: 5, required: 8 })
    );
}

#[test]
fn test_simulate_zero_stake_per_seat() {
    let mut config = Config::new_mock(false);
    let validators = uniform_validators(&config, 8, 0);
    config.stake_per_seat = 0;
    assert_eq!(simulate(&config, &validators), Err(SimError::ZeroStakePerSeat));
}

#[test]
fn test_parse_stake() {
    assert_eq!(parse_stake(&b"0".to_vec()), Ok(0));
    assert_eq!(parse_stake(&b"123".to_vec()), Ok(123));
    assert_eq!(
        parse_stake(&b"340282366920938463463374607431768211455".to_vec()),
        Ok(u128::MAX)
    );
    assert_eq!(parse_stake(&Vec::new()), Err(SimError::MalformedStake));
    assert_eq!(parse_stake(&b"12a".to_vec()), Err(SimError::MalformedStake));
    assert_eq!(parse_stake(&b"-5".to_vec()), Err(SimError::MalformedStake));
    assert_eq!(
        parse_stake(&b"340282366920938463463374607431768211456".to_vec()),
        Err(SimError::MalformedStake)
    );
}

#[test]
fn test_validator_data_from_rpc() {
    let data = ValidatorData::from_rpc("validator_0".to_owned(), &b"250".to_vec()).unwrap();
    assert_eq!(data.account_id, "validator_0");
    assert_eq!(data.stake, 250);
    assert_eq!(data.is_malicious, None);

    assert_eq!(
        ValidatorData::from_rpc("validator_1".to_owned(), &b"25x".to_vec()),
        Err(SimError::MalformedStake)
    );
}

#[test]
fn test_near_protocol_new() {
    let protocol = NearProtocol::new("https://archival-rpc.example.org".to_owned(), Some(42));
    assert_eq!(protocol.rpc_url, "https://archival-rpc.example.org");
    assert_eq!(protocol.block, Some(42));
}

#[test]
fn test_sum_partial_seat_weights() {
    let partial_seats = vec![
        PartialSeat { validator_idx: 0, is_malicious: false, weight: 50 },
        PartialSeat { validator_idx: 1, is_malicious: true, weight: 40 },
        PartialSeat { validator_idx: 2, is_malicious: false, weight: 10 },
    ];
    assert_eq!(sum_partial_seat_weights(&partial_seats), 100);
    assert_eq!(sum_partial_seat_weights(&Vec::new()), 0);
}

#[test]
fn test_partial_seat_stats() {
    let config = Config::new_mock(true);
    let stakes_and_flags: Vec<(u128, bool)> = vec![
        (500, false),
        (310, true),
        (90, false),
        (100, true),
        (100, false),
        (100, false),
        (100, false),
        (100, false),
        (100, false),
        (100, false),
        (100, false),
        (100, false),
    ];
    let raw: Vec<RawValidatorData> = stakes_and_flags
        .into_iter()
        .enumerate()
        .map(|(i, (stake, is_malicious))| RawValidatorData {
            account_id: format!("validator_{i}"),
            stake,
            is_malicious,
        })
        .collect();
    let (_, validators) = parse_raw_validator_data(&config, &raw).unwrap();

    // At seat price 90: remainders {50, 40, 0, 10 * 9}; malicious holders are
    // validators 1 (40) and 3 (10).
    let stats = partial_seat_stats(&validators, 90);
    assert_eq!(stats.num_partial_seats, 11);
    assert_eq!(stats.num_malicious_partial_seats, 2);
    assert_eq!(stats.sum_weights, 180);
    assert_eq!(stats.sum_malicious_weights, 50);
    assert_eq!(stats.equivalent_num_seats, 2);
    assert_eq!(stats.equivalent_num_malicious_seats, 0);
}

#[test]
fn test_seat_accessors() {
    let validator = Validator {
        index: 3,
        account_id: "validator_3".to_owned(),
        stake: 100,
        is_malicious: true,
        num_seats: 1,
        total_stake_share:
            sim_validator_assignment::rational::Fraction::new(1, 12),
    };
    let seat = Seat::new(&validator);
    assert_eq!(seat.validator_idx, 3);
    assert!(seat.get_is_malicious());

    let partial_seat = PartialSeat::new(&validator, 30);
    assert_eq!(partial_seat.get_weight(), 30);
    assert!(partial_seat.get_is_malicious());
    assert!(validator.get_is_malicious());
    assert_eq!(validator.num_seats_as_usize(), 1);
}
