use fractal_flake::{FlakeGenerator, FlakeSeed, FractalError};

#[test]
fn load_basic_config() {
    let seed = FlakeSeed::load("host=alpha\nport=9000\nnode=3\nepoch=1000").unwrap();
    assert_eq!(seed.sync_host, "alpha");
    assert_eq!(seed.sync_port, 9000);
    assert_eq!(seed.node_id, 3);
    assert_eq!(seed.epoch, 1000);
}

#[test]
fn load_empty_input_gives_defaults() {
    let seed = FlakeSeed::load("").unwrap();
    assert_eq!(seed.sync_host, "");
    assert_eq!(seed.sync_port, 0);
    assert_eq!(seed.node_id, 0);
    assert_eq!(seed.epoch, 0);
}

#[test]
fn load_trims_whitespace_and_ignores_unknown_keys() {
    let seed = FlakeSeed::load("  host =  beta \r\ncolour=green\nport= 81 \n").unwrap();
    assert_eq!(seed.sync_host, "beta");
    assert_eq!(seed.sync_port, 81);
    assert_eq!(seed.node_id, 0);
}

#[test]
fn load_later_key_overwrites_earlier() {
    let seed = FlakeSeed::load("node=1\nnode=7\nhost=a\nhost=b").unwrap();
    assert_eq!(seed.node_id, 7);
    assert_eq!(seed.sync_host, "b");
}

#[test]
fn load_value_may_contain_equals() {
    let seed = FlakeSeed::load("host=a=b").unwrap();
    assert_eq!(seed.sync_host, "a=b");
}

#[test]
fn load_port_out_of_range_names_line_and_value() {
    let err = FlakeSeed::load("port=99999").unwrap_err();
    match err {
        FractalError::InvalidPort { line, value } => {
            assert_eq!(line, 1);
            assert_eq!(value, "99999");
        }
        other => panic!("expected InvalidPort, got {:?}", other),
    }
}

#[test]
fn load_port_boundaries() {
    let seed = FlakeSeed::load("port=65535").unwrap();
    assert_eq!(seed.sync_port, 65535);
    assert!(matches!(
        FlakeSeed::load("port=65536"),
        Err(FractalError::InvalidPort { line: 1, .. })
    ));
}

#[test]
fn load_missing_equals_names_line() {
    let err = FlakeSeed::load("badline").unwrap_err();
    match err {
        FractalError::MissingEquals { line } => assert_eq!(line, 1),
        other => panic!("expected MissingEquals, got {:?}", other),
    }
}

#[test]
fn load_blank_line_is_missing_equals() {
    assert!(matches!(
        FlakeSeed::load("host=a\n\nport=1"),
        Err(FractalError::MissingEquals { line: 2 })
    ));
}

#[test]
fn load_node_not_a_number_names_line_and_value() {
    let err = FlakeSeed::load("host=a\nnode=abc").unwrap_err();
    match err {
        FractalError::InvalidNode { line, value } => {
            assert_eq!(line, 2);
            assert_eq!(value, "abc");
        }
        other => panic!("expected InvalidNode, got {:?}", other),
    }
}

#[test]
fn load_epoch_over_128_bits_is_invalid() {
    // one more than u128::MAX
    let err = FlakeSeed::load("epoch=340282366920938463463374607431768211456").unwrap_err();
    assert!(matches!(err, FractalError::InvalidEpoch { line: 1, .. }));
    let seed = FlakeSeed::load("epoch=340282366920938463463374607431768211455").unwrap();
    assert_eq!(seed.epoch, u128::MAX);
}

#[test]
fn load_rejects_signs_and_empty_numbers() {
    assert!(matches!(
        FlakeSeed::load("node=+3"),
        Err(FractalError::InvalidNode { line: 1, .. })
    ));
    assert!(matches!(
        FlakeSeed::load("port="),
        Err(FractalError::InvalidPort { line: 1, .. })
    ));
}

#[test]
fn new_seed_has_zero_node_and_epoch() {
    let seed = FlakeSeed::new(String::from("gamma"), 4242);
    assert_eq!(seed.sync_host, "gamma");
    assert_eq!(seed.sync_port, 4242);
    assert_eq!(seed.node_id, 0);
    assert_eq!(seed.epoch, 0);
}

#[test]
fn fracture_binds_seed_and_thread() {
    let seed = FlakeSeed::load("node=5\nepoch=77").unwrap();
    let gen = seed.fracture(9);
    assert_eq!(gen.epoch, 77);
    assert_eq!(gen.node_id, 5);
    assert_eq!(gen.thread_id, 9);
    assert_eq!(gen.sequence, 0);
    assert_eq!(gen.last_time, 0);
}

#[test]
fn sync_response_updates_epoch() {
    let mut seed = FlakeSeed::new(String::from("alpha"), 9000);
    seed.apply_sync_response("{\"epoch\":\"123456789\"}").unwrap();
    assert_eq!(seed.epoch, 123456789);
    assert_eq!(seed.sync_host, "alpha");
    assert_eq!(seed.sync_port, 9000);
}

#[test]
fn sync_response_epoch_not_a_number() {
    let mut seed = FlakeSeed::new(String::from("alpha"), 9000);
    let err = seed.apply_sync_response("{\"epoch\":\"notanumber\"}").unwrap_err();
    assert!(matches!(err, FractalError::InvalidSyncEpochRecived));
    assert_eq!(seed.epoch, 0);
}

#[test]
fn sync_response_wrong_shape_is_deserialisation_error() {
    let mut seed = FlakeSeed::new(String::from("alpha"), 9000);
    assert!(matches!(
        seed.apply_sync_response("not json at all"),
        Err(FractalError::DeserialisationError)
    ));
    assert!(matches!(
        seed.apply_sync_response("{}"),
        Err(FractalError::DeserialisationError)
    ));
    assert!(matches!(
        seed.apply_sync_response("{\"epoch\":123456789}"),
        Err(FractalError::DeserialisationError)
    ));
    assert_eq!(seed.epoch, 0);
}

#[test]
fn sync_response_epoch_max_and_beyond() {
    let mut seed = FlakeSeed::new(String::from("a"), 1);
    seed.apply_sync_response("{\"epoch\":\"340282366920938463463374607431768211455\"}")
        .unwrap();
    assert_eq!(seed.epoch, u128::MAX);
    assert!(matches!(
        seed.apply_sync_response("{\"epoch\":\"340282366920938463463374607431768211456\"}"),
        Err(FractalError::InvalidSyncEpochRecived)
    ));
    assert_eq!(seed.epoch, u128::MAX);
}

#[test]
fn generated_id_carries_masked_node_thread_and_sequence() {
    let mut gen = FlakeGenerator::new(1000, 40, 3);
    let id = gen.generate();
    assert_eq!((id >> 17) & 31, 40 & 31);
    assert_eq!((id >> 12) & 31, 3 & 31);
    assert_eq!(id & 4095, 0);
    assert_eq!(gen.sequence, 1);
    let id2 = gen.generate();
    assert_eq!((id2 >> 17) & 31, 40 & 31);
    assert_eq!((id2 >> 12) & 31, 3 & 31);
}

#[test]
fn same_millisecond_increments_sequence() {
    let mut gen = FlakeGenerator::new(0, 1, 2);
    let id1 = gen.generate();
    let id2 = gen.generate();
    if id1 >> 22 == id2 >> 22 {
        // no millisecond boundary was crossed: sequence grows by exactly one
        assert_eq!(id2 & 4095, (id1 & 4095) + 1);
    } else {
        // a boundary was crossed: the count restarts
        assert_eq!(id2 & 4095, 0);
    }
}

#[test]
fn exhausted_sequence_waits_for_next_millisecond() {
    let mut gen = FlakeGenerator::new(0, 1, 2);
    let id1 = gen.generate();
    let t1 = gen.last_time;
    // simulate 4096 identifiers already issued in this millisecond
    gen.sequence = 4096;
    let id2 = gen.generate();
    assert!(gen.last_time > t1);
    assert_eq!(id2 & 4095, 0);
    assert!(id2 >> 22 > id1 >> 22);
    assert_eq!(gen.sequence, 1);
}

#[test]
fn decode_then_encode_reproduces_identifier() {
    let mut gen = FlakeGenerator::new(0, 13, 27);
    // a last_time in the future keeps the stored sequence from being reset
    gen.sequence = 99;
    gen.last_time = u128::MAX;
    let id = gen.generate();
    assert_eq!(id & 4095, 99);
    let time = id >> 22;
    let node = (id >> 17) & 31;
    let thread = (id >> 12) & 31;
    let seq = id & 4095;
    let rebuilt = (time << 22) | ((node & 31) << 17) | ((thread & 31) << 12) | (seq & 4095);
    assert_eq!(rebuilt, id);
}

#[test]
fn generator_new_initializes_state() {
    let gen = FlakeGenerator::new(123, 4, 5);
    assert_eq!(gen.epoch, 123);
    assert_eq!(gen.node_id, 4);
    assert_eq!(gen.thread_id, 5);
    assert_eq!(gen.sequence, 0);
    assert_eq!(gen.last_time, 0);
}
