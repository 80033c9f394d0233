//! Proof configurations, and the setup parameters derived from them. The
//! derivation is a function of the configuration alone, so that a verifier
//! recomputes the parameters a prover used instead of trusting them.

use vstd::prelude::*;
use crate::error::Error;

verus! {

/// Number of bytes in one field element of the proving system.
pub const NODE_BYTES: usize = 32;

/// Number of challenges in a configuration built from command-line values.
pub const DEFAULT_CHALLENGE_COUNT: usize = 200;

/// Expansion degree of a layered setup whose configuration names none.
pub const DEFAULT_EXPANSION_DEGREE: usize = 6;

/// Number of layers of a layered setup whose configuration names none.
pub const DEFAULT_LAYER_COUNT: usize = 10;

/// Number of taper layers in a configuration built from command-line values.
pub const DEFAULT_TAPER_LAYER_COUNT: usize = 7;

/// The taper fraction one third, as the bits of a double-precision float.
pub const DEFAULT_TAPER_FRACTION_BITS: u64 = 0x3FD5_5555_5555_5555;

/// The two constructions of the replication encoding.
#[derive(Clone, Copy, Debug, PartialEq, Eq, Structural)]
pub enum ProofKind {
    SingleLayer,
    Layered,
}

/// What a layered construction needs beyond the common configuration. The
/// taper fraction is held as the bits of a double-precision float.
#[derive(Clone, Copy, Debug, PartialEq, Eq, Structural)]
pub struct LayeredParams {
    pub expansion_degree: usize,
    pub layer_count: usize,
    pub is_tapered: bool,
    pub taper_layer_count: usize,
    pub taper_fraction_bits: u64,
}

/// The configuration of one proof.
#[derive(Clone, Copy, Debug, PartialEq, Eq, Structural)]
pub struct ProofConfig {
    pub kind: ProofKind,
    pub size_bytes: usize,
    pub degree: usize,
    pub vde_iterations: usize,
    pub challenge_count: usize,
    pub layered_params: Option<LayeredParams>,
}

impl ProofConfig {
    /// Whether the configuration holds together: layered parameters are there
    /// only for the layered construction.
    pub open spec fn is_consistent(self) -> bool {
        self.layered_params is Some ==> self.kind == ProofKind::Layered
    }
}

/// The graph that a setup describes.
#[derive(Clone, Copy, Debug, PartialEq, Eq)]
pub struct GraphParams {
    pub nodes: usize,
    pub degree: usize,
    pub expansion_degree: usize,
    pub graph_seed: [u32; 7],
}

/// Setup parameters of the single-layer construction.
#[derive(Clone, Copy, Debug, PartialEq, Eq)]
pub struct SingleLayerSetup {
    pub drg: GraphParams,
    pub challenge_count: usize,
    pub private: bool,
    pub vde_iterations: usize,
}

/// How many challenges each layer of a layered construction gets.
#[derive(Clone, Copy, Debug, PartialEq, Eq, Structural)]
pub enum LayerSchedule {
    /// Every one of `layer_count` layers gets `challenge_count` challenges.
    Fixed { layer_count: usize, challenge_count: usize },
    /// The challenges taper over `taper_layer_count` layers by the fraction
    /// whose bits are `taper_fraction_bits`.
    Tapered {
        layer_count: usize,
        challenge_count: usize,
        taper_layer_count: usize,
        taper_fraction_bits: u64,
    },
}

/// Setup parameters of the layered construction.
#[derive(Clone, Copy, Debug, PartialEq, Eq)]
pub struct LayeredSetup {
    pub drg: GraphParams,
    pub vde_iterations: usize,
    pub layer_schedule: LayerSchedule,
}

/// The number of whole field elements that `size_bytes` bytes hold.
pub open spec fn node_count_of(size_bytes: usize) -> usize {
    size_bytes / NODE_BYTES
}

/// The graph seed of every setup: seven zero words.
pub open spec fn zero_graph_seed() -> [u32; 7] {
    vstd::array::spec_array_fill_for_copy_type::<u32, 7>(0u32)
}

/// Every word of the graph seed is zero.
pub proof fn lemma_graph_seed_is_zero()
    ensures
        zero_graph_seed()@ == Seq::new(7, |i: int| 0u32),
{
    broadcast use vstd::array::group_array_axioms;

    assert(zero_graph_seed()@ =~= Seq::new(7, |i: int| 0u32));
}

/// The single-layer setup that `config` determines.
pub open spec fn single_layer_setup_of(config: ProofConfig) -> SingleLayerSetup {
    SingleLayerSetup {
        drg: GraphParams {
            nodes: node_count_of(config.size_bytes),
            degree: config.degree,
            expansion_degree: 0,
            graph_seed: zero_graph_seed(),
        },
        challenge_count: config.challenge_count,
        private: false,
        vde_iterations: config.vde_iterations,
    }
}

/// The expansion degree of the layered setup that `config` determines.
pub open spec fn expansion_degree_of(config: ProofConfig) -> usize {
    match config.layered_params {
        Some(layered) => layered.expansion_degree,
        None => DEFAULT_EXPANSION_DEGREE,
    }
}

/// The layer schedule that `config` determines: the one its layered
/// parameters describe, or ten layers of `challenge_count` challenges each
/// where it has none.
pub open spec fn layer_schedule_of(config: ProofConfig) -> LayerSchedule {
    match config.layered_params {
        Some(layered) => if layered.is_tapered {
            LayerSchedule::Tapered {
                layer_count: layered.layer_count,
                challenge_count: config.challenge_count,
                taper_layer_count: layered.taper_layer_count,
                taper_fraction_bits: layered.taper_fraction_bits,
            }
        } else {
            LayerSchedule::Fixed {
                layer_count: layered.layer_count,
                challenge_count: config.challenge_count,
            }
        },
        None => LayerSchedule::Fixed {
            layer_count: DEFAULT_LAYER_COUNT,
            challenge_count: config.challenge_count,
        },
    }
}

/// The layered setup that `config` determines.
pub open spec fn layered_setup_of(config: ProofConfig) -> LayeredSetup {
    LayeredSetup {
        drg: GraphParams {
            nodes: node_count_of(config.size_bytes),
            degree: config.degree,
            expansion_degree: expansion_degree_of(config),
            graph_seed: zero_graph_seed(),
        },
        vde_iterations: config.vde_iterations,
        layer_schedule: layer_schedule_of(config),
    }
}

/// Counts the whole field elements that the configured size holds; a trailing
/// partial element is dropped.
pub fn derive_node_count(config: &ProofConfig) -> (nodes: usize)
    ensures
        nodes == node_count_of(config.size_bytes),
{
    config.size_bytes / NODE_BYTES
}

/// Derives the setup parameters of the single-layer construction.
pub fn derive_single_layer(config: &ProofConfig) -> (setup: SingleLayerSetup)
    ensures
        setup == single_layer_setup_of(*config),
        forall|i: int| 0 <= i < 7 ==> setup.drg.graph_seed[i] == 0,
{
    proof {
        lemma_graph_seed_is_zero();
    }
    SingleLayerSetup {
        drg: GraphParams {
            nodes: derive_node_count(config),
            degree: config.degree,
            expansion_degree: 0,
            graph_seed: [0u32; 7],
        },
        challenge_count: config.challenge_count,
        private: false,
        vde_iterations: config.vde_iterations,
    }
}

/// Derives the layer schedule of the layered construction.
pub fn derive_layer_schedule(config: &ProofConfig) -> (schedule: LayerSchedule)
    ensures
        schedule == layer_schedule_of(*config),
{
    match config.layered_params {
        Some(layered) => {
            if layered.is_tapered {
                LayerSchedule::Tapered {
                    layer_count: layered.layer_count,
                    challenge_count: config.challenge_count,
                    taper_layer_count: layered.taper_layer_count,
                    taper_fraction_bits: layered.taper_fraction_bits,
                }
            } else {
                LayerSchedule::Fixed {
                    layer_count: layered.layer_count,
                    challenge_count: config.challenge_count,
                }
            }
        },
        None => LayerSchedule::Fixed {
            layer_count: DEFAULT_LAYER_COUNT,
            challenge_count: config.challenge_count,
        },
    }
}

/// Derives the setup parameters of the layered construction.
pub fn derive_layered(config: &ProofConfig) -> (setup: LayeredSetup)
    ensures
        setup == layered_setup_of(*config),
        forall|i: int| 0 <= i < 7 ==> setup.drg.graph_seed[i] == 0,
{
    proof {
        lemma_graph_seed_is_zero();
    }
    let expansion_degree = match config.layered_params {
        Some(layered) => layered.expansion_degree,
        None => DEFAULT_EXPANSION_DEGREE,
    };
    LayeredSetup {
        drg: GraphParams {
            nodes: derive_node_count(config),
            degree: config.degree,
            expansion_degree,
            graph_seed: [0u32; 7],
        },
        vde_iterations: config.vde_iterations,
        layer_schedule: derive_layer_schedule(config),
    }
}

/// The configuration of a single-layer proof over `size_kb` kilobytes, or a
/// configuration error where that many bytes cannot be counted.
pub fn single_layer_config(size_kb: usize, degree: usize, vde_iterations: usize) -> (made: Result<
    ProofConfig,
    Error,
>)
    ensures
        size_kb * 1024 <= usize::MAX ==> made == Ok::<ProofConfig, Error>(
            ProofConfig {
                kind: ProofKind::SingleLayer,
                size_bytes: (size_kb * 1024) as usize,
                degree,
                vde_iterations,
                challenge_count: DEFAULT_CHALLENGE_COUNT,
                layered_params: None,
            },
        ),
        size_kb * 1024 > usize::MAX ==> made == Err::<ProofConfig, Error>(Error::Config),
        made matches Ok(config) ==> config.is_consistent(),
{
    if size_kb > usize::MAX / 1024 {
        return Err(Error::Config);
    }
    Ok(
        ProofConfig {
            kind: ProofKind::SingleLayer,
            size_bytes: size_kb * 1024,
            degree,
            vde_iterations,
            challenge_count: DEFAULT_CHALLENGE_COUNT,
            layered_params: None,
        },
    )
}

/// The configuration of a layered proof over `size_kb` kilobytes, tapered
/// over seven layers by one third, or a configuration error where that many
/// bytes cannot be counted.
pub fn layered_config(
    size_kb: usize,
    degree: usize,
    vde_iterations: usize,
    expansion_degree: usize,
    layer_count: usize,
) -> (made: Result<ProofConfig, Error>)
    ensures
        size_kb * 1024 <= usize::MAX ==> made == Ok::<ProofConfig, Error>(
            ProofConfig {
                kind: ProofKind::Layered,
                size_bytes: (size_kb * 1024) as usize,
                degree,
                vde_iterations,
                challenge_count: DEFAULT_CHALLENGE_COUNT,
                layered_params: Some(
                    LayeredParams {
                        expansion_degree,
                        layer_count,
                        is_tapered: true,
                        taper_layer_count: DEFAULT_TAPER_LAYER_COUNT,
                        taper_fraction_bits: DEFAULT_TAPER_FRACTION_BITS,
                    },
                ),
            },
        ),
        size_kb * 1024 > usize::MAX ==> made == Err::<ProofConfig, Error>(Error::Config),
        made matches Ok(config) ==> config.is_consistent(),
{
    if size_kb > usize::MAX / 1024 {
        return Err(Error::Config);
    }
    Ok(
        ProofConfig {
            kind: ProofKind::Layered,
            size_bytes: size_kb * 1024,
            degree,
            vde_iterations,
            challenge_count: DEFAULT_CHALLENGE_COUNT,
            layered_params: Some(
                LayeredParams {
                    expansion_degree,
                    layer_count,
                    is_tapered: true,
                    taper_layer_count: DEFAULT_TAPER_LAYER_COUNT,
                    taper_fraction_bits: DEFAULT_TAPER_FRACTION_BITS,
                },
            ),
        },
    )
}

/// Derivation is a function of the configuration: two configurations that are
/// equal give equal setups, of either construction, wherever they are derived.
pub proof fn lemma_derivation_is_deterministic(first: ProofConfig, second: ProofConfig)
    requires
        first == second,
    ensures
        single_layer_setup_of(first) == single_layer_setup_of(second),
        layered_setup_of(first) == layered_setup_of(second),
{
}

} // verus!
