use storecore::suid::{
    compose_id, MintStep, SuidError, SuidGenerator, MAX_SEQUENCE, MAX_TIMESTAMP_DELTA,
    SUID_EPOCH_MS,
};

const T0: u64 = SUID_EPOCH_MS + 123456;

#[test]
fn compose_packs_the_fields() {
    // 1 * 2^22 + 1 * 2^17 + 1 * 2^12 + 5
    assert_eq!(compose_id(1, 1, 1, 5), 4329477);
    assert_eq!(compose_id(0, 0, 0, 0), 0);
    assert_eq!(
        compose_id(MAX_TIMESTAMP_DELTA, 31, 31, MAX_SEQUENCE),
        u64::MAX
    );
}

#[test]
fn mint_in_a_fresh_millisecond_resets_the_sequence() {
    let mut g = SuidGenerator::new();
    let r = g.mint_at(T0, 1, 1).unwrap();
    assert_eq!(r, MintStep::Minted(compose_id(123456, 1, 1, 0)));
    assert_eq!(g.last_timestamp, T0);
    assert_eq!(g.sequence, 0);
}

#[test]
fn mint_in_the_same_millisecond_steps_the_sequence() {
    let mut g = SuidGenerator::new();
    let first = g.mint_at(T0, 1, 1).unwrap();
    let second = g.mint_at(T0, 1, 1).unwrap();
    let third = g.mint_at(T0, 1, 1).unwrap();
    let ids: Vec<u64> = [first, second, third]
        .into_iter()
        .map(|s| match s {
            MintStep::Minted(id) => id,
            MintStep::SequenceExhausted => panic!("sequence should not be spent"),
        })
        .collect();
    assert_eq!(ids[0], compose_id(123456, 1, 1, 0));
    assert_eq!(ids[1], compose_id(123456, 1, 1, 1));
    assert_eq!(ids[2], compose_id(123456, 1, 1, 2));
    assert!(ids[0] < ids[1] && ids[1] < ids[2]);
    assert_eq!(g.sequence, 2);
}

#[test]
fn a_spent_sequence_asks_the_caller_to_wait() {
    let mut g = SuidGenerator {
        last_timestamp: T0,
        sequence: MAX_SEQUENCE,
    };
    assert_eq!(g.mint_at(T0, 1, 1), Ok(MintStep::SequenceExhausted));
    // the counter is untouched
    assert_eq!(g.last_timestamp, T0);
    assert_eq!(g.sequence, MAX_SEQUENCE);
    // the next millisecond mints again, sequence reset
    assert_eq!(
        g.mint_at(T0 + 1, 1, 1),
        Ok(MintStep::Minted(compose_id(123457, 1, 1, 0)))
    );
}

#[test]
fn a_backward_clock_is_a_typed_fault() {
    let mut g = SuidGenerator {
        last_timestamp: T0,
        sequence: 3,
    };
    assert_eq!(g.mint_at(T0 - 1, 1, 1), Err(SuidError::ClockBackwards));
    assert_eq!(g.last_timestamp, T0);
    assert_eq!(g.sequence, 3);
}

#[test]
fn a_clock_before_the_epoch_is_out_of_range() {
    let mut g = SuidGenerator::new();
    assert_eq!(
        g.mint_at(SUID_EPOCH_MS - 1, 1, 1),
        Err(SuidError::TimestampOutOfRange)
    );
}

#[test]
fn exhausting_a_whole_millisecond_yields_distinct_identifiers() {
    // all 4096 sequence values of one millisecond, then the forced wait
    let mut g = SuidGenerator::new();
    let mut ids = Vec::new();
    for _ in 0..4096 {
        match g.mint_at(T0, 1, 1).unwrap() {
            MintStep::Minted(id) => ids.push(id),
            MintStep::SequenceExhausted => panic!("spent too early"),
        }
    }
    assert_eq!(g.mint_at(T0, 1, 1), Ok(MintStep::SequenceExhausted));
    match g.mint_at(T0 + 1, 1, 1).unwrap() {
        MintStep::Minted(id) => ids.push(id),
        MintStep::SequenceExhausted => panic!("fresh millisecond must mint"),
    }
    for w in ids.windows(2) {
        assert!(w[0] < w[1]);
    }
    let mut sorted = ids.clone();
    sorted.dedup();
    assert_eq!(sorted.len(), 4097);
}

#[test]
fn generate_with_the_real_clock_is_strictly_increasing() {
    let mut g = SuidGenerator::new();
    let a = g.generate_suid_u64(1, 1).unwrap();
    let b = g.generate_suid_u64(1, 1).unwrap();
    let c = g.generate_suid_u64(1, 1).unwrap();
    assert!(a < b && b < c);
}
