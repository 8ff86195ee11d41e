//! The matrix-multiply kernel of each size configuration: its shape, and
//! the record of whether it has been created.
//!
//! The kernel itself is compiled by a native generator outside this
//! library. The registry decides when creation is due and remembers its
//! outcome, so that a kernel is created at most once and a failed creation
//! is never passed over.

use vstd::prelude::*;
use crate::config::SizeConfig;
use crate::error::EngineError;

verus! {

/// The generator's code for row-major storage.
pub const ROW_MAJOR: u32 = 101;

/// The generator's code for an operand that is not transposed.
pub const NO_TRANSPOSE: u32 = 111;

/// The shape of a product `C = A * B` as the generator takes it: `A` is
/// `m` by `k`, `B` is `k` by `n`, and `lda`, `ldb`, `ldc` are the row
/// lengths of the three buffers.
#[derive(Clone, Copy, Debug, PartialEq, Eq, Structural)]
pub struct GemmShape {
    pub layout: u32,
    pub transa: u32,
    pub transb: u32,
    pub m: usize,
    pub n: usize,
    pub k: usize,
    pub lda: usize,
    pub ldb: usize,
    pub ldc: usize,
}

/// The product of one recurrent step: the hidden state, one row of `hidden`
/// values, times the stacked weights of the three gates.
pub open spec fn gemm_shape_of(config: SizeConfig) -> GemmShape {
    GemmShape {
        layout: ROW_MAJOR,
        transa: NO_TRANSPOSE,
        transb: NO_TRANSPOSE,
        m: 1,
        n: (3 * config.hidden()) as usize,
        k: config.hidden(),
        lda: config.hidden(),
        ldb: (3 * config.hidden()) as usize,
        ldc: (3 * config.hidden()) as usize,
    }
}

/// Computes [`gemm_shape_of`].
pub fn gemm_shape(config: SizeConfig) -> (shape: GemmShape)
    ensures
        shape == gemm_shape_of(config),
{
    let hidden: usize = config.hidden_width();
    GemmShape {
        layout: ROW_MAJOR,
        transa: NO_TRANSPOSE,
        transb: NO_TRANSPOSE,
        m: 1,
        n: 3 * hidden,
        k: hidden,
        lda: hidden,
        ldb: 3 * hidden,
        ldc: 3 * hidden,
    }
}

/// What is known of one configuration's kernel.
#[derive(Clone, Copy, Debug, PartialEq, Eq, Structural)]
pub enum KernelSlot {
    /// Creation has not been tried.
    Empty,
    /// The kernel exists.
    Ready,
    /// Creation was tried and gave no kernel.
    Failed,
}

/// What the caller has to do before it may use a configuration's kernel.
#[derive(Clone, Copy, Debug, PartialEq, Eq, Structural)]
pub enum InitAction {
    /// The kernel exists already.
    Nothing,
    /// Create a kernel of this shape and report the outcome.
    Create(GemmShape),
}

/// One slot for each size configuration.
#[derive(Clone, Copy, Debug, PartialEq, Eq, Structural)]
pub struct KernelRegistry {
    pub small: KernelSlot,
    pub big: KernelSlot,
}

impl KernelRegistry {
    /// The slot of a configuration.
    pub open spec fn slot(self, config: SizeConfig) -> KernelSlot {
        match config {
            SizeConfig::Small => self.small,
            SizeConfig::Big => self.big,
        }
    }

    /// What `ensure_initialized` answers.
    pub open spec fn action(self, config: SizeConfig) -> Result<InitAction, EngineError> {
        match self.slot(config) {
            KernelSlot::Empty => Ok(InitAction::Create(gemm_shape_of(config))),
            KernelSlot::Ready => Ok(InitAction::Nothing),
            KernelSlot::Failed => Err(EngineError::KernelCreation),
        }
    }

    /// The registry after an outcome of creation has been reported. Only an
    /// empty slot takes the outcome; the other slot never changes.
    pub open spec fn after(self, config: SizeConfig, kernel_present: bool) -> KernelRegistry {
        if self.slot(config) != KernelSlot::Empty {
            self
        } else {
            let outcome = if kernel_present { KernelSlot::Ready } else { KernelSlot::Failed };
            match config {
                SizeConfig::Small => KernelRegistry { small: outcome, big: self.big },
                SizeConfig::Big => KernelRegistry { small: self.small, big: outcome },
            }
        }
    }

    /// A registry in which no creation has been tried.
    pub fn new() -> (registry: KernelRegistry)
        ensures
            registry.small == KernelSlot::Empty,
            registry.big == KernelSlot::Empty,
    {
        KernelRegistry { small: KernelSlot::Empty, big: KernelSlot::Empty }
    }

    /// The slot of a configuration.
    pub fn slot_of(&self, config: SizeConfig) -> (slot: KernelSlot)
        ensures
            slot == self.slot(config),
    {
        match config {
            SizeConfig::Small => self.small,
            SizeConfig::Big => self.big,
        }
    }

    /// Whether the kernel of a configuration exists.
    pub fn is_ready(&self, config: SizeConfig) -> (ready: bool)
        ensures
            ready == (self.slot(config) == KernelSlot::Ready),
    {
        match self.slot_of(config) {
            KernelSlot::Ready => true,
            _ => false,
        }
    }

    /// Says what is due before the kernel of a configuration is used: its
    /// creation where that has not been tried, nothing where the kernel
    /// exists, and an error where creation has failed.
    pub fn ensure_initialized(&self, config: SizeConfig) -> (r: Result<InitAction, EngineError>)
        ensures
            r == self.action(config),
    {
        match self.slot_of(config) {
            KernelSlot::Empty => Ok(InitAction::Create(gemm_shape(config))),
            KernelSlot::Ready => Ok(InitAction::Nothing),
            KernelSlot::Failed => Err(EngineError::KernelCreation),
        }
    }

    /// Takes the outcome of a creation: whether the generator handed back a
    /// kernel. Succeeds exactly when the configuration's kernel exists
    /// afterwards.
    pub fn record_creation(&mut self, config: SizeConfig, kernel_present: bool) -> (r: Result<(), EngineError>)
        ensures
            *final(self) == old(self).after(config, kernel_present),
            r.is_ok() == (final(self).slot(config) == KernelSlot::Ready),
            r matches Err(e) ==> e == EngineError::KernelCreation,
    {
        match self.slot_of(config) {
            KernelSlot::Empty => {
                let outcome: KernelSlot = if kernel_present {
                    KernelSlot::Ready
                } else {
                    KernelSlot::Failed
                };
                match config {
                    SizeConfig::Small => {
                        self.small = outcome;
                    },
                    SizeConfig::Big => {
                        self.big = outcome;
                    },
                }
                if kernel_present {
                    Ok(())
                } else {
                    Err(EngineError::KernelCreation)
                }
            },
            KernelSlot::Ready => Ok(()),
            KernelSlot::Failed => Err(EngineError::KernelCreation),
        }
    }
}

/// A kernel is created at most once: once an outcome has been recorded for
/// a configuration, no creation is asked for again, a later report changes
/// nothing, and the other configuration's slot is as it was.
pub proof fn lemma_created_at_most_once(
    registry: KernelRegistry,
    config: SizeConfig,
    first: bool,
    second: bool,
    other: SizeConfig,
)
    requires
        registry.slot(config) == KernelSlot::Empty,
    ensures
        registry.after(config, first).action(config) == (if first {
            Ok(InitAction::Nothing)
        } else {
            Err(EngineError::KernelCreation)
        }),
        registry.after(config, first).after(config, second) == registry.after(config, first),
        other != config ==> registry.after(config, first).slot(other) == registry.slot(other),
{
}

/// Initialisation is idempotent: where the kernel exists, nothing is due
/// and a further report leaves the registry as it is.
pub proof fn lemma_initialized_stays(registry: KernelRegistry, config: SizeConfig, kernel_present: bool)
    requires
        registry.slot(config) == KernelSlot::Ready,
    ensures
        registry.action(config) == Ok::<InitAction, EngineError>(InitAction::Nothing),
        registry.after(config, kernel_present) == registry,
{
}

} // verus!
