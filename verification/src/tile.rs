use crate::error::{reports_config_problem, Error, Result};
use crate::layout::TokenSpan;
use vstd::prelude::*;
use vstd::string::StringExecFns;

verus! {

/// Logical `N_L x N_H` screening grid from the Multiscreen paper.
#[derive(Clone, Copy, Debug, PartialEq, Eq, Structural)]
pub struct ScreeningGridConfig {
    /// Paper symbol `N_L`: number of residual screening layers represented by
    /// the layout grid.
    pub layer_count: usize,
    /// Paper symbol `N_H`: number of parallel gated screening tiles per layer.
    pub head_count: usize,
}

impl Default for ScreeningGridConfig {
    fn default() -> (config: Self)
        ensures
            config.layer_count == 2,
            config.head_count == 2,
    {
        ScreeningGridConfig { layer_count: 2, head_count: 2 }
    }
}

impl ScreeningGridConfig {
    /// The first problem that makes the grid invalid, if any.
    pub open spec fn problem(&self) -> Option<Seq<char>> {
        if self.layer_count == 0 {
            Some("screening_grid layer_count must be greater than zero"@)
        } else if self.head_count == 0 {
            Some("screening_grid head_count must be greater than zero"@)
        } else {
            None
        }
    }

    pub fn validate(&self) -> (result: Result<()>)
        ensures
            reports_config_problem(result, self.problem()),
    {
        if self.layer_count == 0 {
            return Err(
                Error::Config(
                    String::from_str("screening_grid layer_count must be greater than zero"),
                ),
            );
        }
        if self.head_count == 0 {
            return Err(
                Error::Config(
                    String::from_str("screening_grid head_count must be greater than zero"),
                ),
            );
        }
        Ok(())
    }

    /// Number of layer/head slots in the grid, `N_L * N_H`.
    pub fn tile_slots(&self) -> (slots: usize)
        requires
            self.layer_count * self.head_count <= usize::MAX,
        ensures
            slots == self.layer_count * self.head_count,
    {
        self.layer_count * self.head_count
    }

    /// Older name of [`Self::tile_slots`].
    pub fn cells(&self) -> (slots: usize)
        requires
            self.layer_count * self.head_count <= usize::MAX,
        ensures
            slots == self.layer_count * self.head_count,
    {
        self.tile_slots()
    }
}

/// Controls how screens are split into sliding tiles.
#[derive(Clone, Copy, Debug, PartialEq, Eq, Structural)]
pub struct TileConfig {
    pub tokens_per_tile: usize,
    pub tile_stride_tokens: usize,
    pub screening_grid: ScreeningGridConfig,
}

impl Default for TileConfig {
    fn default() -> (config: Self)
        ensures
            config.tokens_per_tile == 32,
            config.tile_stride_tokens == 16,
            config.screening_grid.layer_count == 2,
            config.screening_grid.head_count == 2,
    {
        TileConfig {
            tokens_per_tile: 32,
            tile_stride_tokens: 16,
            screening_grid: ScreeningGridConfig::default(),
        }
    }
}

impl TileConfig {
    /// The first problem that makes the tile configuration invalid, if any.
    pub open spec fn problem(&self) -> Option<Seq<char>> {
        if self.tokens_per_tile == 0 {
            Some("tokens_per_tile must be greater than zero"@)
        } else if self.tile_stride_tokens == 0 {
            Some("tile_stride_tokens must be greater than zero"@)
        } else {
            self.screening_grid.problem()
        }
    }

    pub fn validate(&self) -> (result: Result<()>)
        ensures
            reports_config_problem(result, self.problem()),
    {
        if self.tokens_per_tile == 0 {
            return Err(Error::Config(String::from_str("tokens_per_tile must be greater than zero")));
        }
        if self.tile_stride_tokens == 0 {
            return Err(
                Error::Config(String::from_str("tile_stride_tokens must be greater than zero")),
            );
        }
        self.screening_grid.validate()
    }
}

/// A tile over a contiguous token span, mapped to paper-style layer/head slots.
#[derive(Clone, Copy, Debug, PartialEq, Eq)]
pub struct Tile {
    pub index: usize,
    pub screen_index: usize,
    pub layer_index: usize,
    pub head_index: usize,
    pub span: TokenSpan,
}

impl Tile {
    pub fn new(
        index: usize,
        screen_index: usize,
        layer_index: usize,
        head_index: usize,
        span: TokenSpan,
    ) -> (tile: Self)
        ensures
            tile == (Tile { index, screen_index, layer_index, head_index, span }),
    {
        Tile { index, screen_index, layer_index, head_index, span }
    }

    /// Number of tokens the tile covers.
    pub fn len(&self) -> (n: usize)
        requires
            self.span.start <= self.span.end,
        ensures
            n == self.span.end - self.span.start,
    {
        self.span.len()
    }

    pub fn is_empty(&self) -> (empty: bool)
        ensures
            empty == (self.span.start == self.span.end),
    {
        self.span.is_empty()
    }
}

} // verus!
