use crate::error::{reports_config_problem, Error, Result};
use crate::layout::TokenSpan;
use crate::tile::Tile;
use vstd::prelude::*;
use vstd::string::StringExecFns;

verus! {

/// Controls how a token sequence is split into screens.
#[derive(Clone, Copy, Debug, PartialEq, Eq, Structural)]
pub struct ScreenConfig {
    pub tokens_per_screen: usize,
    pub screen_stride_tokens: usize,
    pub max_screen_count: Option<usize>,
}

impl Default for ScreenConfig {
    fn default() -> (config: Self)
        ensures
            config.tokens_per_screen == 128,
            config.screen_stride_tokens == 64,
            config.max_screen_count is None,
    {
        ScreenConfig { tokens_per_screen: 128, screen_stride_tokens: 64, max_screen_count: None }
    }
}

impl ScreenConfig {
    /// The first problem that makes the screen configuration invalid, if any.
    pub open spec fn problem(&self) -> Option<Seq<char>> {
        if self.tokens_per_screen == 0 {
            Some("tokens_per_screen must be greater than zero"@)
        } else if self.screen_stride_tokens == 0 {
            Some("screen_stride_tokens must be greater than zero"@)
        } else if self.max_screen_count == Some(0usize) {
            Some("max_screen_count must be omitted or greater than zero"@)
        } else {
            None
        }
    }

    pub fn validate(&self) -> (result: Result<()>)
        ensures
            reports_config_problem(result, self.problem()),
    {
        if self.tokens_per_screen == 0 {
            return Err(
                Error::Config(String::from_str("tokens_per_screen must be greater than zero")),
            );
        }
        if self.screen_stride_tokens == 0 {
            return Err(
                Error::Config(String::from_str("screen_stride_tokens must be greater than zero")),
            );
        }
        if let Some(0) = self.max_screen_count {
            return Err(
                Error::Config(
                    String::from_str("max_screen_count must be omitted or greater than zero"),
                ),
            );
        }
        Ok(())
    }
}

/// Abstract content of a [`Screen`].
pub struct ScreenModel {
    pub index: usize,
    pub span: TokenSpan,
    pub tiles: Seq<Tile>,
}

/// A screen over a contiguous token span.
#[derive(Clone, Debug, PartialEq, Eq)]
pub struct Screen {
    pub index: usize,
    pub span: TokenSpan,
    pub tiles: Vec<Tile>,
}

impl View for Screen {
    type V = ScreenModel;

    open spec fn view(&self) -> ScreenModel {
        ScreenModel { index: self.index, span: self.span, tiles: self.tiles@ }
    }
}

impl Screen {
    pub fn new(index: usize, span: TokenSpan, tiles: Vec<Tile>) -> (screen: Self)
        ensures
            screen.index == index,
            screen.span == span,
            screen.tiles@ == tiles@,
    {
        Screen { index, span, tiles }
    }

    /// Number of tokens the screen covers.
    pub fn len(&self) -> (n: usize)
        requires
            self.span.start <= self.span.end,
        ensures
            n == self.span.end - self.span.start,
    {
        self.span.len()
    }

    pub fn is_empty(&self) -> (empty: bool)
        ensures
            empty == (self.span.start == self.span.end),
    {
        self.span.is_empty()
    }
}

} // verus!
