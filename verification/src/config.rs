//! Constants and size configurations shared by every stage.

use vstd::prelude::*;

verus! {

/// Pooled time steps that one interior window contributes to the result.
pub const STEP: usize = 1000;

/// Pooled time steps of context discarded on each side of a window.
pub const PAD: usize = 10;

/// Width of the convolution filter, in samples.
pub const FILTER_WIDTH: usize = 33;

/// Samples merged into one time step by max-pooling.
pub const POOL_KERNEL: usize = 3;

/// Channels derived from each raw sample: the clamped value and its square.
pub const INPUT_CHANNELS: usize = 2;

/// Symbol classes: blank plus the four bases.
pub const CLASS_COUNT: usize = 5;

/// Samples in one full window.
pub const CHUNK_LEN: usize = 3 * STEP + 6 * PAD;

/// Samples between the starts of two consecutive windows.
pub const STRIDE: usize = 3 * STEP;

/// Rows of the network's output for one full window.
pub const WINDOW_ROWS: usize = STEP + 2 * PAD;

/// Time steps left of `samples` input samples after pooling.
pub open spec fn pooled_len(samples: int) -> int {
    samples / (POOL_KERNEL as int)
}

/// Computes [`pooled_len`].
pub fn pooled_length(samples: usize) -> (steps: usize)
    ensures
        steps == pooled_len(samples as int),
{
    samples / POOL_KERNEL
}

/// The two sizes in which the network exists.
#[derive(Clone, Copy, Debug, PartialEq, Eq, Structural)]
pub enum SizeConfig {
    /// Two recurrent layers of 48 hidden units.
    Small,
    /// Three recurrent layers of 256 hidden units.
    Big,
}

/// What a layer of the network does.
#[derive(Clone, Copy, Debug, PartialEq, Eq, Structural)]
pub enum LayerKind {
    /// Convolution over time followed by max-pooling.
    Convolution,
    /// A forward and a backward recurrent pass, joined per time step.
    Recurrent,
    /// The affine map to one logit per class.
    Projection,
}

/// A layer with the number of channels that it takes and gives per time step.
#[derive(Clone, Copy, Debug, PartialEq, Eq, Structural)]
pub struct Layer {
    pub kind: LayerKind,
    pub input_width: usize,
    pub output_width: usize,
}

impl SizeConfig {
    /// The number of hidden units of a recurrent pass.
    pub open spec fn hidden(self) -> usize {
        match self {
            SizeConfig::Small => 48,
            SizeConfig::Big => 256,
        }
    }

    /// The number of recurrent layers.
    pub open spec fn recurrent(self) -> usize {
        match self {
            SizeConfig::Small => 2,
            SizeConfig::Big => 3,
        }
    }

    /// The number of layers: the convolution, the recurrent layers and the
    /// projection.
    pub open spec fn layer_count(self) -> int {
        self.recurrent() + 2
    }

    /// Layer `index` of the network, counted from the input.
    pub open spec fn layer(self, index: int) -> Layer {
        if index == 0 {
            Layer {
                kind: LayerKind::Convolution,
                input_width: INPUT_CHANNELS,
                output_width: self.hidden(),
            }
        } else if index == 1 {
            Layer {
                kind: LayerKind::Recurrent,
                input_width: self.hidden(),
                output_width: (2 * self.hidden()) as usize,
            }
        } else if index <= self.recurrent() {
            Layer {
                kind: LayerKind::Recurrent,
                input_width: (2 * self.hidden()) as usize,
                output_width: (2 * self.hidden()) as usize,
            }
        } else {
            Layer {
                kind: LayerKind::Projection,
                input_width: (2 * self.hidden()) as usize,
                output_width: CLASS_COUNT,
            }
        }
    }

    /// Computes [`SizeConfig::hidden`].
    pub fn hidden_width(self) -> (width: usize)
        ensures
            width == self.hidden(),
    {
        match self {
            SizeConfig::Small => 48,
            SizeConfig::Big => 256,
        }
    }

    /// Computes [`SizeConfig::recurrent`].
    pub fn recurrent_layers(self) -> (count: usize)
        ensures
            count == self.recurrent(),
    {
        match self {
            SizeConfig::Small => 2,
            SizeConfig::Big => 3,
        }
    }

    /// The layers in the order in which a sample passes through them, which
    /// is also the order in which their weights are stored.
    pub fn layers(self) -> (plan: Vec<Layer>)
        ensures
            plan.len() == self.layer_count(),
            forall|i: int| 0 <= i < plan.len() ==> #[trigger] plan[i] == self.layer(i),
    {
        let hidden: usize = self.hidden_width();
        let mut plan: Vec<Layer> = Vec::new();
        plan.push(Layer { kind: LayerKind::Convolution, input_width: INPUT_CHANNELS, output_width: hidden });
        plan.push(Layer { kind: LayerKind::Recurrent, input_width: hidden, output_width: 2 * hidden });
        let mut index: usize = 1;
        while index < self.recurrent_layers()
            invariant
                hidden == self.hidden(),
                1 <= index <= self.recurrent(),
                plan.len() == index + 1,
                forall|i: int| 0 <= i < plan.len() ==> #[trigger] plan[i] == self.layer(i),
            decreases self.recurrent() - index,
        {
            plan.push(Layer { kind: LayerKind::Recurrent, input_width: 2 * hidden, output_width: 2 * hidden });
            index += 1;
        }
        plan.push(Layer { kind: LayerKind::Projection, input_width: 2 * hidden, output_width: CLASS_COUNT });
        plan
    }
}

/// The layers fit together: the first takes the input channels, each takes
/// what the one before it gives, and the last gives one logit per class.
pub proof fn lemma_layers_chain(config: SizeConfig, index: int)
    requires
        0 <= index < config.layer_count(),
    ensures
        config.layer(0).input_width == INPUT_CHANNELS,
        config.layer(0).kind == LayerKind::Convolution,
        index > 0 ==> config.layer(index).input_width == config.layer(index - 1).output_width,
        0 < index < config.layer_count() - 1 ==> config.layer(index).kind == LayerKind::Recurrent,
        config.layer(config.layer_count() - 1).kind == LayerKind::Projection,
        config.layer(config.layer_count() - 1).output_width == CLASS_COUNT,
{
}

/// A full window pools to `WINDOW_ROWS` rows, of which `STEP` remain once
/// `PAD` rows are dropped on either side.
pub proof fn lemma_window_rows()
    ensures
        pooled_len(CHUNK_LEN as int) == WINDOW_ROWS,
        pooled_len(STRIDE as int) == STEP,
        WINDOW_ROWS - 2 * PAD == STEP,
{
}

} // verus!
