use deepnano2::config::{Layer, LayerKind, SizeConfig, CLASS_COUNT, FILTER_WIDTH, INPUT_CHANNELS, POOL_KERNEL};
use deepnano2::error::EngineError;
use deepnano2::kernel::{gemm_shape, GemmShape, InitAction, KernelRegistry, KernelSlot};

#[test]
fn network_constants() {
    assert_eq!(FILTER_WIDTH, 33);
    assert_eq!(POOL_KERNEL, 3);
    assert_eq!(INPUT_CHANNELS, 2);
    assert_eq!(CLASS_COUNT, 5);
}

#[test]
fn size_configurations() {
    assert_eq!(SizeConfig::Small.hidden_width(), 48);
    assert_eq!(SizeConfig::Small.recurrent_layers(), 2);
    assert_eq!(SizeConfig::Big.hidden_width(), 256);
    assert_eq!(SizeConfig::Big.recurrent_layers(), 3);
}

#[test]
fn small_network_has_four_layers() {
    assert_eq!(
        SizeConfig::Small.layers(),
        vec![
            Layer { kind: LayerKind::Convolution, input_width: 2, output_width: 48 },
            Layer { kind: LayerKind::Recurrent, input_width: 48, output_width: 96 },
            Layer { kind: LayerKind::Recurrent, input_width: 96, output_width: 96 },
            Layer { kind: LayerKind::Projection, input_width: 96, output_width: 5 },
        ]
    );
}

#[test]
fn big_network_has_five_layers() {
    assert_eq!(
        SizeConfig::Big.layers(),
        vec![
            Layer { kind: LayerKind::Convolution, input_width: 2, output_width: 256 },
            Layer { kind: LayerKind::Recurrent, input_width: 256, output_width: 512 },
            Layer { kind: LayerKind::Recurrent, input_width: 512, output_width: 512 },
            Layer { kind: LayerKind::Recurrent, input_width: 512, output_width: 512 },
            Layer { kind: LayerKind::Projection, input_width: 512, output_width: 5 },
        ]
    );
}

#[test]
fn layers_hand_their_width_on() {
    for config in [SizeConfig::Small, SizeConfig::Big] {
        let plan = config.layers();
        for pair in plan.windows(2) {
            assert_eq!(pair[0].output_width, pair[1].input_width);
        }
    }
}

#[test]
fn gemm_shape_of_the_small_network() {
    assert_eq!(
        gemm_shape(SizeConfig::Small),
        GemmShape { layout: 101, transa: 111, transb: 111, m: 1, n: 144, k: 48, lda: 48, ldb: 144, ldc: 144 }
    );
}

#[test]
fn gemm_shape_of_the_big_network() {
    assert_eq!(
        gemm_shape(SizeConfig::Big),
        GemmShape { layout: 101, transa: 111, transb: 111, m: 1, n: 768, k: 256, lda: 256, ldb: 768, ldc: 768 }
    );
}

#[test]
fn new_registry_asks_for_creation() {
    let registry = KernelRegistry::new();
    assert_eq!(registry.slot_of(SizeConfig::Small), KernelSlot::Empty);
    assert_eq!(registry.slot_of(SizeConfig::Big), KernelSlot::Empty);
    assert!(!registry.is_ready(SizeConfig::Small));
    assert_eq!(
        registry.ensure_initialized(SizeConfig::Big),
        Ok(InitAction::Create(gemm_shape(SizeConfig::Big)))
    );
}

#[test]
fn created_kernel_is_not_created_again() {
    let mut registry = KernelRegistry::new();
    assert_eq!(registry.record_creation(SizeConfig::Small, true), Ok(()));
    assert!(registry.is_ready(SizeConfig::Small));
    assert_eq!(registry.ensure_initialized(SizeConfig::Small), Ok(InitAction::Nothing));
    assert_eq!(registry.ensure_initialized(SizeConfig::Small), Ok(InitAction::Nothing));
    assert_eq!(registry.record_creation(SizeConfig::Small, false), Ok(()));
    assert!(registry.is_ready(SizeConfig::Small));
}

#[test]
fn failed_creation_is_fatal_for_its_configuration() {
    let mut registry = KernelRegistry::new();
    assert_eq!(registry.record_creation(SizeConfig::Big, false), Err(EngineError::KernelCreation));
    assert_eq!(registry.slot_of(SizeConfig::Big), KernelSlot::Failed);
    assert_eq!(registry.ensure_initialized(SizeConfig::Big), Err(EngineError::KernelCreation));
    assert_eq!(registry.record_creation(SizeConfig::Big, true), Err(EngineError::KernelCreation));
    assert!(!registry.is_ready(SizeConfig::Big));
}

#[test]
fn configurations_have_slots_of_their_own() {
    let mut registry = KernelRegistry::new();
    assert_eq!(registry.record_creation(SizeConfig::Big, false), Err(EngineError::KernelCreation));
    assert_eq!(registry.slot_of(SizeConfig::Small), KernelSlot::Empty);
    assert_eq!(registry.record_creation(SizeConfig::Small, true), Ok(()));
    assert_eq!(registry.slot_of(SizeConfig::Small), KernelSlot::Ready);
    assert_eq!(registry.slot_of(SizeConfig::Big), KernelSlot::Failed);
}
