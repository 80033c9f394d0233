use replication_game::decimal::{decimal_bytes, parse_number, parse_signed};
use replication_game::error::Error;
use replication_game::params::{
    derive_layer_schedule, derive_layered, derive_node_count, derive_single_layer,
    layered_config, single_layer_config, GraphParams, LayerSchedule, LayeredParams,
    LayeredSetup, ProofConfig, ProofKind, SingleLayerSetup, DEFAULT_TAPER_FRACTION_BITS,
};

fn config(size_bytes: usize, layered_params: Option<LayeredParams>) -> ProofConfig {
    ProofConfig {
        kind: if layered_params.is_some() { ProofKind::Layered } else { ProofKind::SingleLayer },
        size_bytes,
        degree: 6,
        vde_iterations: 3,
        challenge_count: 200,
        layered_params,
    }
}

#[test]
fn node_count_is_floor_of_size_over_32() {
    assert_eq!(derive_node_count(&config(0, None)), 0);
    assert_eq!(derive_node_count(&config(31, None)), 0);
    assert_eq!(derive_node_count(&config(32, None)), 1);
    assert_eq!(derive_node_count(&config(33, None)), 1);
    assert_eq!(derive_node_count(&config(1024, None)), 32);
    assert_eq!(derive_node_count(&config(usize::MAX, None)), usize::MAX / 32);
}

#[test]
fn single_layer_setup() {
    let setup = derive_single_layer(&config(2048, None));
    assert_eq!(
        setup,
        SingleLayerSetup {
            drg: GraphParams { nodes: 64, degree: 6, expansion_degree: 0, graph_seed: [0u32; 7] },
            challenge_count: 200,
            private: false,
            vde_iterations: 3,
        }
    );
}

#[test]
fn single_layer_setup_ignores_layered_params() {
    let layered = LayeredParams {
        expansion_degree: 8,
        layer_count: 4,
        is_tapered: true,
        taper_layer_count: 7,
        taper_fraction_bits: DEFAULT_TAPER_FRACTION_BITS,
    };
    assert_eq!(
        derive_single_layer(&config(2048, Some(layered))),
        derive_single_layer(&config(2048, None))
    );
}

#[test]
fn layered_setup_with_taper() {
    let layered = LayeredParams {
        expansion_degree: 8,
        layer_count: 4,
        is_tapered: true,
        taper_layer_count: 7,
        taper_fraction_bits: DEFAULT_TAPER_FRACTION_BITS,
    };
    let setup = derive_layered(&config(4096, Some(layered)));
    assert_eq!(
        setup,
        LayeredSetup {
            drg: GraphParams { nodes: 128, degree: 6, expansion_degree: 8, graph_seed: [0u32; 7] },
            vde_iterations: 3,
            layer_schedule: LayerSchedule::Tapered {
                layer_count: 4,
                challenge_count: 200,
                taper_layer_count: 7,
                taper_fraction_bits: DEFAULT_TAPER_FRACTION_BITS,
            },
        }
    );
}

#[test]
fn layered_setup_without_taper() {
    let layered = LayeredParams {
        expansion_degree: 5,
        layer_count: 3,
        is_tapered: false,
        taper_layer_count: 7,
        taper_fraction_bits: 1,
    };
    assert_eq!(
        derive_layer_schedule(&config(0, Some(layered))),
        LayerSchedule::Fixed { layer_count: 3, challenge_count: 200 }
    );
}

#[test]
fn layered_setup_without_layered_params() {
    let setup = derive_layered(&config(64, None));
    assert_eq!(setup.drg.expansion_degree, 6);
    assert_eq!(setup.drg.nodes, 2);
    assert_eq!(setup.layer_schedule, LayerSchedule::Fixed { layer_count: 10, challenge_count: 200 });
}

#[test]
fn derivation_repeats() {
    let layered = LayeredParams {
        expansion_degree: 6,
        layer_count: 4,
        is_tapered: true,
        taper_layer_count: 7,
        taper_fraction_bits: DEFAULT_TAPER_FRACTION_BITS,
    };
    let first = config(1 << 20, Some(layered));
    let second = first;
    assert_eq!(derive_layered(&first), derive_layered(&second));
    assert_eq!(derive_single_layer(&first), derive_single_layer(&second));
    assert_eq!(derive_layered(&first), derive_layered(&first));
}

#[test]
fn taper_fraction_is_one_third() {
    assert_eq!(f64::from_bits(DEFAULT_TAPER_FRACTION_BITS), 1.0 / 3.0);
}

#[test]
fn single_layer_config_from_kilobytes() {
    let made = single_layer_config(2, 6, 0).unwrap();
    assert_eq!(
        made,
        ProofConfig {
            kind: ProofKind::SingleLayer,
            size_bytes: 2048,
            degree: 6,
            vde_iterations: 0,
            challenge_count: 200,
            layered_params: None,
        }
    );
    assert_eq!(single_layer_config(0, 6, 0).unwrap().size_bytes, 0);
}

#[test]
fn layered_config_from_kilobytes() {
    let made = layered_config(1, 5, 2, 6, 4).unwrap();
    assert_eq!(made.kind, ProofKind::Layered);
    assert_eq!(made.size_bytes, 1024);
    assert_eq!(made.degree, 5);
    assert_eq!(made.vde_iterations, 2);
    assert_eq!(made.challenge_count, 200);
    assert_eq!(
        made.layered_params,
        Some(LayeredParams {
            expansion_degree: 6,
            layer_count: 4,
            is_tapered: true,
            taper_layer_count: 7,
            taper_fraction_bits: DEFAULT_TAPER_FRACTION_BITS,
        })
    );
}

#[test]
fn size_that_cannot_be_counted_is_a_config_error() {
    assert_eq!(single_layer_config(usize::MAX, 6, 0), Err(Error::Config));
    assert_eq!(single_layer_config(usize::MAX / 1024 + 1, 6, 0), Err(Error::Config));
    assert_eq!(layered_config(usize::MAX / 1024 + 1, 6, 0, 6, 4), Err(Error::Config));
    let largest = single_layer_config(usize::MAX / 1024, 6, 0).unwrap();
    assert_eq!(largest.size_bytes, (usize::MAX / 1024) * 1024);
}

#[test]
fn decimal_text_of_numbers() {
    assert_eq!(decimal_bytes(0), b"0");
    assert_eq!(decimal_bytes(7), b"7");
    assert_eq!(decimal_bytes(10), b"10");
    assert_eq!(decimal_bytes(-120), b"-120");
    assert_eq!(decimal_bytes(1556000000), b"1556000000");
    assert_eq!(decimal_bytes(i32::MAX), b"2147483647");
    assert_eq!(decimal_bytes(i32::MIN), b"-2147483648");
    for value in [i32::MIN, -1001, -1, 0, 9, 10, 99, 100, 65535, i32::MAX] {
        assert_eq!(decimal_bytes(value), format!("{}", value).into_bytes());
    }
}

#[test]
fn numbers_are_read_from_decimal_text() {
    assert_eq!(parse_number(b"0"), Some(0));
    assert_eq!(parse_number(b"007"), Some(7));
    assert_eq!(parse_number(b"18446744073709551615"), Some(u64::MAX));
    assert_eq!(parse_number(b"18446744073709551616"), None);
    assert_eq!(parse_number(b"99999999999999999999999"), None);
    assert_eq!(parse_number(b""), None);
    assert_eq!(parse_number(b"12a"), None);
    assert_eq!(parse_number(b"-1"), None);
    assert_eq!(parse_number(b"+1"), None);
    assert_eq!(parse_number(b" 1"), None);
}

#[test]
fn signed_numbers_are_read_from_decimal_text() {
    assert_eq!(parse_signed(b"0"), Some(0));
    assert_eq!(parse_signed(b"-0"), Some(0));
    assert_eq!(parse_signed(b"-5"), Some(-5));
    assert_eq!(parse_signed(b"2147483647"), Some(i32::MAX));
    assert_eq!(parse_signed(b"2147483648"), None);
    assert_eq!(parse_signed(b"-2147483648"), Some(i32::MIN));
    assert_eq!(parse_signed(b"-2147483649"), None);
    assert_eq!(parse_signed(b"-"), None);
    assert_eq!(parse_signed(b"--1"), None);
    assert_eq!(parse_signed(b""), None);
    for value in [i32::MIN, -77, 0, 5, 1234, i32::MAX] {
        assert_eq!(parse_signed(&decimal_bytes(value)), Some(value));
    }
}
