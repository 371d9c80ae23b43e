use syncopate_machine::config::{InferenceConfig, MultiscreenConfig, TrimConfig};
use syncopate_machine::error::Error;
use syncopate_machine::screen::ScreenConfig;
use syncopate_machine::tile::{ScreeningGridConfig, TileConfig};

#[test]
fn default_config_is_valid() {
    MultiscreenConfig::default().validate().unwrap();
}

#[test]
fn rejects_zero_tokens_per_screen() {
    let mut config = MultiscreenConfig::default();
    config.screens.tokens_per_screen = 0;
    assert!(config.validate().is_err());
}

#[test]
fn rejects_zero_tile_stride_tokens() {
    let mut config = MultiscreenConfig::default();
    config.tiles.tile_stride_tokens = 0;
    assert!(config.validate().is_err());
}

#[test]
fn tiny_config_is_valid_and_compact() {
    let config = MultiscreenConfig::tiny();
    config.validate().unwrap();
    assert_eq!(config.screens.tokens_per_screen, 8);
    assert_eq!(config.screens.screen_stride_tokens, 4);
    assert_eq!(config.tiles.tokens_per_tile, 4);
    assert_eq!(config.tiles.tile_stride_tokens, 2);
    assert_eq!(config.tiles.screening_grid.layer_count, 1);
    assert_eq!(config.tiles.screening_grid.head_count, 2);
    assert_eq!(f32::from_bits(config.trim.acceptance_sharpness_r_bits), 2.0);
    assert_eq!(f32::from_bits(config.trim.screening_window_w_bits), 4.0);
}

#[test]
fn default_trim_bits_hold_documented_values() {
    let trim = TrimConfig::default();
    assert_eq!(f32::from_bits(trim.acceptance_sharpness_r_bits), 2.0);
    assert_eq!(f32::from_bits(trim.screening_window_w_bits), 32.0);
}

#[test]
fn screen_config_errors_come_in_order() {
    let config = ScreenConfig {
        tokens_per_screen: 0,
        screen_stride_tokens: 0,
        max_screen_count: Some(0),
    };
    assert_eq!(
        config.validate(),
        Err(Error::Config("tokens_per_screen must be greater than zero".to_string()))
    );
    let config = ScreenConfig {
        tokens_per_screen: 1,
        screen_stride_tokens: 0,
        max_screen_count: Some(0),
    };
    assert_eq!(
        config.validate(),
        Err(Error::Config("screen_stride_tokens must be greater than zero".to_string()))
    );
    let config = ScreenConfig {
        tokens_per_screen: 1,
        screen_stride_tokens: 1,
        max_screen_count: Some(0),
    };
    assert_eq!(
        config.validate(),
        Err(Error::Config(
            "max_screen_count must be omitted or greater than zero".to_string()
        ))
    );
}

#[test]
fn tile_and_grid_errors() {
    let mut tiles = TileConfig::default();
    tiles.tokens_per_tile = 0;
    assert_eq!(
        tiles.validate(),
        Err(Error::Config("tokens_per_tile must be greater than zero".to_string()))
    );
    let mut tiles = TileConfig::default();
    tiles.screening_grid.layer_count = 0;
    assert_eq!(
        tiles.validate(),
        Err(Error::Config(
            "screening_grid layer_count must be greater than zero".to_string()
        ))
    );
    let grid = ScreeningGridConfig {
        layer_count: 3,
        head_count: 0,
    };
    assert_eq!(
        grid.validate(),
        Err(Error::Config(
            "screening_grid head_count must be greater than zero".to_string()
        ))
    );
}

#[test]
fn grid_slots_multiply() {
    let grid = ScreeningGridConfig {
        layer_count: 3,
        head_count: 5,
    };
    assert_eq!(grid.tile_slots(), 15);
    assert_eq!(grid.cells(), 15);
}

#[test]
fn trim_rejects_non_positive_or_non_finite() {
    let mut config = MultiscreenConfig::default();
    config.trim.acceptance_sharpness_r_bits = f32::NAN.to_bits();
    assert_eq!(
        config.validate(),
        Err(Error::Config(
            "trim acceptance_sharpness_r must be positive and finite".to_string()
        ))
    );
    config.trim.acceptance_sharpness_r_bits = (-1.0f32).to_bits();
    assert!(config.validate().is_err());
    config.trim.acceptance_sharpness_r_bits = 0.0f32.to_bits();
    assert!(config.validate().is_err());
    config.trim.acceptance_sharpness_r_bits = f32::MIN_POSITIVE.to_bits();
    assert!(config.validate().is_ok());
    config.trim.screening_window_w_bits = f32::INFINITY.to_bits();
    assert_eq!(
        config.validate(),
        Err(Error::Config(
            "trim screening_window_w must be positive and finite".to_string()
        ))
    );
}

#[test]
fn inference_config_rejects_zero_limit() {
    let config = InferenceConfig {
        max_inference_tokens: Some(0),
        use_input_token_fallback: true,
    };
    assert_eq!(
        config.validate(),
        Err(Error::Config(
            "max_inference_tokens must be omitted or greater than zero".to_string()
        ))
    );
    let mut full = MultiscreenConfig::default();
    full.inference = config;
    full.trim.screening_window_w_bits = 0;
    // trim problems are reported before inference problems
    assert_eq!(
        full.validate(),
        Err(Error::Config(
            "trim screening_window_w must be positive and finite".to_string()
        ))
    );
}

#[test]
fn error_text_names_its_kind() {
    assert_eq!(
        Error::Config("x".to_string()).to_string(),
        "invalid configuration: x"
    );
    assert_eq!(Error::Io("gone".to_string()).to_string(), "I/O error: gone");
    assert_eq!(
        Error::Serialization("bad".to_string()).to_string(),
        "serialization error: bad"
    );
    assert_eq!(Error::Training("t".to_string()).to_string(), "training error: t");
    assert_eq!(
        Error::Inference("i".to_string()).to_string(),
        "inference error: i"
    );
    assert_eq!(Error::Layout("l".to_string()).to_string(), "layout error: l");
    assert!(Error::WeightsConfigMismatch("w".to_string())
        .to_string()
        .contains("config mismatch"));
}
