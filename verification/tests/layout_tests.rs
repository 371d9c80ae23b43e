use syncopate_machine::config::MultiscreenConfig;
use syncopate_machine::error::Error;
use syncopate_machine::layout::{ScreenLayout, TokenSpan};
use syncopate_machine::screen::Screen;
use syncopate_machine::tile::Tile;

#[test]
fn layout_splits_screens_and_tiles() {
    let config = MultiscreenConfig::tiny();
    let layout = ScreenLayout::build(&config, 10).unwrap();

    assert_eq!(layout.sequence_len(), 10);
    assert_eq!(layout.screens().len(), 2);
    assert_eq!(layout.screens()[0].span, TokenSpan { start: 0, end: 8 });
    assert_eq!(layout.screens()[1].span, TokenSpan { start: 4, end: 10 });
    assert!(layout.screening_tile_count() >= 4);
}

#[test]
fn layout_handles_screen_stride_that_jumps_past_tail() {
    let mut config = MultiscreenConfig::tiny();
    config.screens.tokens_per_screen = 4;
    config.screens.screen_stride_tokens = 20;
    config.tiles.tokens_per_tile = 2;
    config.tiles.tile_stride_tokens = 2;

    let layout = ScreenLayout::build(&config, 10).unwrap();
    let spans = layout
        .screens()
        .iter()
        .map(|screen| screen.span)
        .collect::<Vec<_>>();

    assert_eq!(
        spans,
        vec![
            TokenSpan { start: 0, end: 4 },
            TokenSpan { start: 6, end: 10 },
        ]
    );
}

#[test]
fn layout_handles_tile_stride_that_jumps_past_tail() {
    let mut config = MultiscreenConfig::tiny();
    config.screens.tokens_per_screen = 10;
    config.screens.screen_stride_tokens = 10;
    config.tiles.tokens_per_tile = 4;
    config.tiles.tile_stride_tokens = 20;

    let layout = ScreenLayout::build(&config, 10).unwrap();
    let tile_spans = layout
        .screening_tiles()
        .iter()
        .map(|tile| tile.span)
        .collect::<Vec<_>>();

    assert_eq!(
        tile_spans,
        vec![
            TokenSpan { start: 0, end: 4 },
            TokenSpan { start: 6, end: 10 },
        ]
    );
}

#[test]
fn tiny_layout_tiles_are_exact() {
    let config = MultiscreenConfig::tiny();
    let layout = ScreenLayout::build(&config, 10).unwrap();
    let first: &Screen = &layout.screens()[0];
    let spans: Vec<TokenSpan> = first.tiles.iter().map(|t| t.span).collect();
    assert_eq!(
        spans,
        vec![
            TokenSpan { start: 0, end: 4 },
            TokenSpan { start: 2, end: 6 },
            TokenSpan { start: 4, end: 8 },
        ]
    );
    let slots: Vec<(usize, usize, usize)> = first
        .tiles
        .iter()
        .map(|t| (t.index, t.layer_index, t.head_index))
        .collect();
    assert_eq!(slots, vec![(0, 0, 0), (1, 0, 1), (2, 0, 0)]);
    let second: &Screen = &layout.screens()[1];
    assert_eq!(second.span, TokenSpan { start: 4, end: 10 });
    assert_eq!(second.tiles.len(), 2);
    assert_eq!(layout.screening_tile_count(), 5);
    assert_eq!(layout.screening_tiles().len(), 5);
    assert_eq!(layout.tiles().len(), 5);
    assert_eq!(layout.token_count(), 10);
    assert!(layout.screens().iter().all(|s| s.tiles.iter().all(|t| t.screen_index == s.index)));
}

#[test]
fn empty_sequence_has_no_screens() {
    let layout = ScreenLayout::build(&MultiscreenConfig::tiny(), 0).unwrap();
    assert_eq!(layout.sequence_len(), 0);
    assert!(layout.screens().is_empty());
    assert_eq!(layout.screening_tile_count(), 0);
}

#[test]
fn max_screen_count_limits_screens() {
    let mut config = MultiscreenConfig::tiny();
    config.screens.tokens_per_screen = 2;
    config.screens.screen_stride_tokens = 2;
    config.screens.max_screen_count = Some(3);
    let layout = ScreenLayout::build(&config, 100).unwrap();
    assert_eq!(layout.screens().len(), 3);
    assert_eq!(layout.screens()[2].span, TokenSpan { start: 4, end: 6 });
}

#[test]
fn build_rejects_invalid_config() {
    let mut config = MultiscreenConfig::tiny();
    config.tiles.tokens_per_tile = 0;
    assert_eq!(
        ScreenLayout::build(&config, 5),
        Err(Error::Config(
            "tokens_per_tile must be greater than zero".to_string()
        ))
    );
}

#[test]
fn huge_strides_overflow_as_layout_errors() {
    let half = usize::MAX / 2 + 1;
    let mut config = MultiscreenConfig::tiny();
    config.screens.tokens_per_screen = 2;
    config.screens.screen_stride_tokens = half;
    assert_eq!(
        ScreenLayout::build(&config, usize::MAX),
        Err(Error::Layout("screen stride overflowed usize".to_string()))
    );
    let mut config = MultiscreenConfig::tiny();
    config.screens.tokens_per_screen = usize::MAX;
    config.tiles.tokens_per_tile = 2;
    config.tiles.tile_stride_tokens = half;
    assert_eq!(
        ScreenLayout::build(&config, usize::MAX),
        Err(Error::Layout("tile stride overflowed usize".to_string()))
    );
}

#[test]
fn stride_past_the_end_jumps_to_the_tail() {
    let mut config = MultiscreenConfig::tiny();
    config.screens.tokens_per_screen = 2;
    config.screens.screen_stride_tokens = usize::MAX;
    let layout = ScreenLayout::build(&config, 10).unwrap();
    let spans: Vec<TokenSpan> = layout.screens().iter().map(|s| s.span).collect();
    assert_eq!(
        spans,
        vec![TokenSpan { start: 0, end: 2 }, TokenSpan { start: 8, end: 10 }]
    );
}

#[test]
fn every_token_is_covered_when_strides_fit_windows() {
    let mut config = MultiscreenConfig::tiny();
    config.screens.tokens_per_screen = 5;
    config.screens.screen_stride_tokens = 3;
    config.tiles.tokens_per_tile = 3;
    config.tiles.tile_stride_tokens = 2;
    for len in 1..30usize {
        let layout = ScreenLayout::build(&config, len).unwrap();
        for token in 0..len {
            assert!(layout
                .screens()
                .iter()
                .any(|s| s.span.contains(token) && s.tiles.iter().any(|t| t.span.contains(token))));
        }
        let last = layout.screens().last().unwrap();
        assert_eq!(last.span.end, len);
        assert_eq!(layout.screens()[0].span.start, 0);
    }
}

#[test]
fn token_span_basics() {
    let span = TokenSpan::new(3, 7).unwrap();
    assert_eq!(span.len(), 4);
    assert!(!span.is_empty());
    assert!(span.contains(3));
    assert!(span.contains(6));
    assert!(!span.contains(7));
    assert!(TokenSpan::new(5, 5).unwrap().is_empty());
    assert_eq!(
        TokenSpan::new(6, 5),
        Err(Error::Layout("token span start must be <= end".to_string()))
    );
}

#[test]
fn tile_and_screen_report_their_span() {
    let tile = Tile::new(1, 0, 0, 1, TokenSpan { start: 2, end: 6 });
    assert_eq!(tile.len(), 4);
    assert!(!tile.is_empty());
    let screen = Screen::new(0, TokenSpan { start: 4, end: 4 }, vec![]);
    assert_eq!(screen.len(), 0);
    assert!(screen.is_empty());
}
