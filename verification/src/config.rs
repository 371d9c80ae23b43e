use crate::error::{reports_config_problem, Error, Result};
use crate::screen::ScreenConfig;
use crate::tile::{ScreeningGridConfig, TileConfig};
use vstd::prelude::*;
use vstd::string::StringExecFns;

verus! {

/// Bit pattern of the IEEE-754 single-precision value `2.0`.
pub const F32_TWO_BITS: u32 = 0x4000_0000u32;

/// Bit pattern of the IEEE-754 single-precision value `4.0`.
pub const F32_FOUR_BITS: u32 = 0x4080_0000u32;

/// Bit pattern of the IEEE-754 single-precision value `32.0`.
pub const F32_THIRTY_TWO_BITS: u32 = 0x4200_0000u32;

/// Bit pattern of IEEE-754 single-precision positive infinity.
pub const F32_INFINITY_BITS: u32 = 0x7f80_0000u32;

/// Whether an IEEE-754 single-precision bit pattern denotes a value that is
/// finite and strictly positive: the sign bit is clear, the exponent is not
/// all ones (infinity or NaN), and the value is not `+0.0`. Subnormals count
/// as positive.
pub open spec fn is_positive_finite_f32_bits(bits: u32) -> bool {
    0 < bits < F32_INFINITY_BITS
}

/// Tests [`is_positive_finite_f32_bits`].
pub fn positive_finite_f32_bits(bits: u32) -> (ok: bool)
    ensures
        ok == is_positive_finite_f32_bits(bits),
{
    0 < bits && bits < F32_INFINITY_BITS
}

/// Multi-screen scoring parameters.
///
/// The trim gate squares the clamped acceptance of a similarity. Both
/// parameters are single-precision floats, each kept as its IEEE-754 bit
/// pattern (`f32::to_bits`), which decides its validity exactly.
#[derive(Clone, Copy, Debug, PartialEq, Eq, Structural)]
pub struct TrimConfig {
    /// Paper symbol `r`; larger values narrow the acceptance width `1 / r`.
    pub acceptance_sharpness_r_bits: u32,
    /// Paper symbol `w`; causal distance window used by the softmask.
    pub screening_window_w_bits: u32,
}

impl Default for TrimConfig {
    fn default() -> (config: Self)
        ensures
            config.acceptance_sharpness_r_bits == F32_TWO_BITS,
            config.screening_window_w_bits == F32_THIRTY_TWO_BITS,
    {
        TrimConfig {
            acceptance_sharpness_r_bits: F32_TWO_BITS,
            screening_window_w_bits: F32_THIRTY_TWO_BITS,
        }
    }
}

impl TrimConfig {
    /// The first problem that makes the trim configuration invalid, if any.
    pub open spec fn problem(&self) -> Option<Seq<char>> {
        if !is_positive_finite_f32_bits(self.acceptance_sharpness_r_bits) {
            Some("trim acceptance_sharpness_r must be positive and finite"@)
        } else if !is_positive_finite_f32_bits(self.screening_window_w_bits) {
            Some("trim screening_window_w must be positive and finite"@)
        } else {
            None
        }
    }

    pub fn validate(&self) -> (result: Result<()>)
        ensures
            reports_config_problem(result, self.problem()),
    {
        if !positive_finite_f32_bits(self.acceptance_sharpness_r_bits) {
            return Err(
                Error::Config(
                    String::from_str("trim acceptance_sharpness_r must be positive and finite"),
                ),
            );
        }
        if !positive_finite_f32_bits(self.screening_window_w_bits) {
            return Err(
                Error::Config(
                    String::from_str("trim screening_window_w must be positive and finite"),
                ),
            );
        }
        Ok(())
    }
}

/// Controls deterministic inference behavior for the lightweight transition
/// engine.
#[derive(Clone, Copy, Debug, PartialEq, Eq, Structural)]
pub struct InferenceConfig {
    /// Maximum number of output tokens to produce. `None` means output length
    /// equals input length.
    pub max_inference_tokens: Option<usize>,
    /// When `true` and no trained transition exists for a token, fall back to
    /// echoing the input token.
    pub use_input_token_fallback: bool,
}

impl Default for InferenceConfig {
    fn default() -> (config: Self)
        ensures
            config.max_inference_tokens is None,
            config.use_input_token_fallback,
    {
        InferenceConfig { max_inference_tokens: None, use_input_token_fallback: true }
    }
}

impl InferenceConfig {
    /// The first problem that makes the inference configuration invalid, if any.
    pub open spec fn problem(&self) -> Option<Seq<char>> {
        if self.max_inference_tokens == Some(0usize) {
            Some("max_inference_tokens must be omitted or greater than zero"@)
        } else {
            None
        }
    }

    pub fn validate(&self) -> (result: Result<()>)
        ensures
            reports_config_problem(result, self.problem()),
    {
        if let Some(0) = self.max_inference_tokens {
            return Err(
                Error::Config(
                    String::from_str("max_inference_tokens must be omitted or greater than zero"),
                ),
            );
        }
        Ok(())
    }
}

/// Full engine configuration.
#[derive(Clone, Copy, Debug, PartialEq, Eq, Structural)]
pub struct MultiscreenConfig {
    pub screens: ScreenConfig,
    pub tiles: TileConfig,
    pub trim: TrimConfig,
    pub inference: InferenceConfig,
}

/// The default engine configuration.
pub open spec fn default_multiscreen_config() -> MultiscreenConfig {
    MultiscreenConfig {
        screens: ScreenConfig {
            tokens_per_screen: 128,
            screen_stride_tokens: 64,
            max_screen_count: None,
        },
        tiles: TileConfig {
            tokens_per_tile: 32,
            tile_stride_tokens: 16,
            screening_grid: ScreeningGridConfig { layer_count: 2, head_count: 2 },
        },
        trim: TrimConfig {
            acceptance_sharpness_r_bits: F32_TWO_BITS,
            screening_window_w_bits: F32_THIRTY_TWO_BITS,
        },
        inference: InferenceConfig { max_inference_tokens: None, use_input_token_fallback: true },
    }
}

/// The compact configuration returned by [`MultiscreenConfig::tiny`].
pub open spec fn tiny_multiscreen_config() -> MultiscreenConfig {
    MultiscreenConfig {
        screens: ScreenConfig { tokens_per_screen: 8, screen_stride_tokens: 4, max_screen_count: None },
        tiles: TileConfig {
            tokens_per_tile: 4,
            tile_stride_tokens: 2,
            screening_grid: ScreeningGridConfig { layer_count: 1, head_count: 2 },
        },
        trim: TrimConfig {
            acceptance_sharpness_r_bits: F32_TWO_BITS,
            screening_window_w_bits: F32_FOUR_BITS,
        },
        inference: InferenceConfig { max_inference_tokens: None, use_input_token_fallback: true },
    }
}

impl Default for MultiscreenConfig {
    fn default() -> (config: Self)
        ensures
            config == default_multiscreen_config(),
            config.is_valid(),
    {
        MultiscreenConfig {
            screens: ScreenConfig::default(),
            tiles: TileConfig::default(),
            trim: TrimConfig::default(),
            inference: InferenceConfig::default(),
        }
    }
}

impl MultiscreenConfig {
    /// The first problem found by validating screens, tiles, trim and
    /// inference settings, in that order.
    pub open spec fn problem(&self) -> Option<Seq<char>> {
        if self.screens.problem() is Some {
            self.screens.problem()
        } else if self.tiles.problem() is Some {
            self.tiles.problem()
        } else if self.trim.problem() is Some {
            self.trim.problem()
        } else {
            self.inference.problem()
        }
    }

    /// Whether every nested setting is valid.
    pub open spec fn is_valid(&self) -> bool {
        self.problem() is None
    }

    /// Validates all nested configuration.
    pub fn validate(&self) -> (result: Result<()>)
        ensures
            reports_config_problem(result, self.problem()),
    {
        self.screens.validate()?;
        self.tiles.validate()?;
        self.trim.validate()?;
        self.inference.validate()?;
        Ok(())
    }

    /// Returns a compact config useful for examples and fast tests.
    pub fn tiny() -> (config: Self)
        ensures
            config == tiny_multiscreen_config(),
            config.is_valid(),
    {
        MultiscreenConfig {
            screens: ScreenConfig {
                tokens_per_screen: 8,
                screen_stride_tokens: 4,
                max_screen_count: None,
            },
            tiles: TileConfig {
                tokens_per_tile: 4,
                tile_stride_tokens: 2,
                screening_grid: ScreeningGridConfig { layer_count: 1, head_count: 2 },
            },
            trim: TrimConfig {
                acceptance_sharpness_r_bits: F32_TWO_BITS,
                screening_window_w_bits: F32_FOUR_BITS,
            },
            inference: InferenceConfig::default(),
        }
    }
}

} // verus!
