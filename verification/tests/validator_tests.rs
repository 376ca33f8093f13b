use sim_validator_assignment::config::Config;
use sim_validator_assignment::error::SimError;
use sim_validator_assignment::partial_seat::PartialSeat;
use sim_validator_assignment::protocol::ValidatorData;
use sim_validator_assignment::rational::Fraction;
use sim_validator_assignment::validator::{
    new_ordered_partial_seats, new_ordered_seats, parse_raw_validator_data, PopulationStats,
    RawValidatorData, Validator,
};

fn new_test_raw_validator_data() -> Vec<RawValidatorData> {
    let stakes_and_flags: Vec<(u128, bool)> = vec![
        (500, false),
        (310, true),
        (90, false),
        (100, true),
        (100, false),
        (100, false),
        (100, false),
        (100, false),
        (100, false),
        (100, false),
        (100, false),
        (100, false),
    ];
    stakes_and_flags
        .into_iter()
        .enumerate()
        .map(|(i, (stake, is_malicious))| RawValidatorData {
            account_id: format!("validator_{i}"),
            stake,
            is_malicious,
        })
        .collect()
}

fn new_test_validator() -> Validator {
    Validator {
        index: 0,
        account_id: "validator_0".to_owned(),
        stake: 300,
        is_malicious: false,
        num_seats: 3,
        total_stake_share: Fraction::new(3, 100),
    }
}

#[test]
fn test_parse_raw_validator_input() {
    let config = Config::new_mock(false);
    let (population_stats, validators) =
        parse_raw_validator_data(&config, &new_test_raw_validator_data()).unwrap();

    assert_eq!(
        population_stats,
        PopulationStats { stake: 1800, malicious_stake: 410, seats: 17, malicious_seats: 4 }
    );
    assert_eq!(validators.len(), 12);
    let expected_seats: Vec<u64> = vec![5, 3, 0, 1, 1, 1, 1, 1, 1, 1, 1, 1];
    for (i, v) in validators.iter().enumerate() {
        assert_eq!(v.index, i);
        assert_eq!(v.account_id, format!("validator_{i}"));
        assert_eq!(v.num_seats, expected_seats[i]);
        assert_eq!(v.is_malicious, i == 1 || i == 3);
    }
    // Stake shares are exact rationals in lowest terms.
    assert_eq!(validators[0].total_stake_share, Fraction::new(5, 18));
    assert_eq!(validators[1].total_stake_share, Fraction::new(31, 180));
    assert_eq!(validators[2].total_stake_share, Fraction::new(1, 20));
}

// The population statistics do not depend on the order of the input records.
#[test]
fn test_parse_is_order_invariant() {
    let config = Config::new_mock(false);
    let forward = new_test_raw_validator_data();
    let mut backward = new_test_raw_validator_data();
    backward.reverse();

    let (stats_forward, _) = parse_raw_validator_data(&config, &forward).unwrap();
    let (stats_backward, _) = parse_raw_validator_data(&config, &backward).unwrap();
    assert_eq!(stats_forward, stats_backward);
}

// Parsing is deterministic: two parses of the same input agree exactly, the
// stake shares included.
#[test]
fn test_parse_is_deterministic() {
    let config = Config::new_mock(false);
    let (stats_1, validators_1) =
        parse_raw_validator_data(&config, &new_test_raw_validator_data()).unwrap();
    let (stats_2, validators_2) =
        parse_raw_validator_data(&config, &new_test_raw_validator_data()).unwrap();
    assert_eq!(stats_1, stats_2);
    assert_eq!(validators_1, validators_2);
}

#[test]
fn test_parse_raw_validator_data_errors() {
    let mut config = Config::new_mock(false);
    config.stake_per_seat = 0;
    assert_eq!(
        parse_raw_validator_data(&config, &new_test_raw_validator_data()),
        Err(SimError::ZeroStakePerSeat)
    );

    let config = Config::new_mock(false);
    let zero_stake = vec![RawValidatorData {
        account_id: "validator_0".to_owned(),
        stake: 0,
        is_malicious: false,
    }];
    assert_eq!(
        parse_raw_validator_data(&config, &zero_stake),
        Err(SimError::ZeroPopulationStake)
    );
    assert_eq!(
        parse_raw_validator_data(&config, &Vec::new()),
        Err(SimError::ZeroPopulationStake)
    );

    let mut config = Config::new_mock(false);
    config.stake_per_seat = u128::MAX;
    let overflowing = vec![
        RawValidatorData {
            account_id: "validator_0".to_owned(),
            stake: u128::MAX,
            is_malicious: false,
        },
        RawValidatorData {
            account_id: "validator_1".to_owned(),
            stake: 1,
            is_malicious: false,
        },
    ];
    assert_eq!(
        parse_raw_validator_data(&config, &overflowing),
        Err(SimError::StakeOverflow)
    );
}

#[test]
fn test_validator_seats() {
    let mut validator_0_seats = new_test_validator();
    validator_0_seats.num_seats = 0;
    assert_eq!(validator_0_seats.seats(), Vec::new());

    let validator_3_seats = new_test_validator();
    let seats = validator_3_seats.seats();
    assert_eq!(seats.len(), 3);
    for seat in seats.iter() {
        assert_eq!(seat.validator_idx, 0);
        assert!(!seat.is_malicious);
    }
}

#[test]
fn test_validator_partial_seat() {
    let validator = new_test_validator();

    // stake fills full seats without remainder: no partial seat materializes
    assert_eq!(validator.partial_seat(100), None);

    // there is a partial seat with `weight > 0`
    assert_eq!(validator.partial_seat(90), Some(PartialSeat::new(&validator, 30)));
}

#[test]
fn test_new_ordered_seats() {
    assert_eq!(new_ordered_seats(&Vec::new()), Vec::new());

    let config = Config::new_mock(false);
    let (_, validators) =
        parse_raw_validator_data(&config, &new_test_raw_validator_data()).unwrap();
    // Use a small set of validators to keep the expectation readable.
    let validators: Vec<Validator> = validators.into_iter().take(3).collect();
    let seats = new_ordered_seats(&validators);
    let indices: Vec<usize> = seats.iter().map(|s| s.validator_idx).collect();
    assert_eq!(indices, vec![0, 0, 0, 0, 0, 1, 1, 1]);
}

#[test]
fn test_new_ordered_partial_seats() {
    assert_eq!(new_ordered_partial_seats(&Vec::new(), 1), Vec::new());

    let config = Config::new_mock(true);
    let (_, validators) =
        parse_raw_validator_data(&config, &new_test_raw_validator_data()).unwrap();
    let partial_seats = new_ordered_partial_seats(&validators, config.stake_per_seat);
    // At seat price 100 only validators 1 (310) and 2 (90) leave a positive
    // remainder.
    assert_eq!(partial_seats.len(), 2);
    assert_eq!(partial_seats[0], PartialSeat::new(&validators[1], 10));
    assert_eq!(partial_seats[1], PartialSeat::new(&validators[2], 90));
}

#[test]
fn test_raw_validator_data_from_validator_data() {
    let data = ValidatorData {
        account_id: "validator_0".to_owned(),
        stake: 42,
        is_malicious: Some(true),
    };
    let raw = RawValidatorData::from(data);
    assert_eq!(raw.account_id, "validator_0");
    assert_eq!(raw.stake, 42);
    assert!(raw.is_malicious);

    let absent = ValidatorData {
        account_id: "validator_1".to_owned(),
        stake: 7,
        is_malicious: None,
    };
    assert!(!RawValidatorData::from(absent).is_malicious);

    let honest = ValidatorData {
        account_id: "validator_2".to_owned(),
        stake: 7,
        is_malicious: Some(false),
    };
    assert!(!RawValidatorData::from(honest).is_malicious);
}
