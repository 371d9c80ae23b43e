use syncopate_machine::config::MultiscreenConfig;
use syncopate_machine::engine::{MultiscreenEngine, ScreeningState, TrainInput};
use syncopate_machine::error::Error;
use syncopate_machine::layout::ScreenLayout;

#[test]
fn inference_uses_learned_next_token_counts() {
    let mut engine = MultiscreenEngine::new(MultiscreenConfig::tiny()).unwrap();
    engine
        .train(TrainInput::from_token_sequences(vec![
            vec![1, 2, 3],
            vec![1, 2, 4],
            vec![2, 4, 5],
        ]))
        .unwrap();

    let output = engine.infer_tokens(&[1, 2]).unwrap();
    assert_eq!(output.output_token_ids, vec![2, 4]);
}

#[test]
fn untrained_engine_can_use_input_token_fallback_tokens() {
    let engine = MultiscreenEngine::new(MultiscreenConfig::tiny()).unwrap();
    let output = engine.infer_tokens(&[7, 8]).unwrap();
    assert_eq!(output.output_token_ids, vec![7, 8]);
}

#[test]
fn load_weights_rejects_config_mismatch() {
    let mut engine = MultiscreenEngine::new(MultiscreenConfig::tiny()).unwrap();
    engine
        .train(TrainInput::from_token_sequences(vec![vec![1, 2, 3]]))
        .unwrap();

    let mut wrong_engine = MultiscreenEngine::new(MultiscreenConfig::default()).unwrap();
    let err = wrong_engine
        .restore_state(*engine.config(), engine.state().clone())
        .unwrap_err();
    assert!(
        err.to_string().contains("config mismatch"),
        "expected config mismatch error, got: {}",
        err.to_string()
    );
}

#[test]
fn from_weights_file_creates_working_engine() {
    let config = MultiscreenConfig::tiny();
    let mut engine = MultiscreenEngine::new(config).unwrap();
    engine
        .train(TrainInput::from_token_sequences(vec![
            vec![10, 20, 30],
            vec![10, 20, 40],
        ]))
        .unwrap();

    let loaded = MultiscreenEngine::from_state(*engine.config(), engine.state().clone()).unwrap();
    let output = loaded.infer_tokens(&[10, 20]).unwrap();
    assert_eq!(output.output_token_ids.len(), 2);
}

#[test]
fn train_from_token_sequences_builds_report() {
    let mut engine = MultiscreenEngine::new(MultiscreenConfig::tiny()).unwrap();
    let report = engine
        .train(TrainInput::from_token_sequences(vec![
            vec![1, 2, 3],
            vec![1, 2, 4],
        ]))
        .unwrap();

    assert_eq!(report.training_sequence_count, 2);
    assert_eq!(report.training_token_count, 6);
    assert_eq!(report.observed_vocab_size, 4);
    assert!(report.screen_layout_count > 0);
    assert!(report.screening_tile_count > 0);
}

#[test]
fn restored_state_reproduces_inference() {
    let config = MultiscreenConfig::tiny();
    let mut engine = MultiscreenEngine::new(config).unwrap();
    engine
        .train(TrainInput::from_token_sequences(vec![vec![1, 2, 3], vec![1, 2, 4]]))
        .unwrap();
    let mut engine2 = MultiscreenEngine::new(config).unwrap();
    let report = engine2
        .restore_state(config, engine.state().clone())
        .unwrap();
    assert_eq!(report.training_sequence_count, 2);
    assert_eq!(report.training_token_count, 6);
    // 2 is followed once by 3 and once by 4: the smaller token wins the tie
    let output = engine2.infer_tokens(&[1, 2]).unwrap();
    assert_eq!(output.output_token_ids, vec![2, 3]);
    assert_eq!(
        engine.infer_tokens(&[1, 2, 3]).unwrap().output_token_ids,
        engine2.infer_tokens(&[1, 2, 3]).unwrap().output_token_ids
    );
}

#[test]
fn training_counts_match_input_statistics() {
    let mut engine = MultiscreenEngine::new(MultiscreenConfig::tiny()).unwrap();
    let report = engine
        .train(TrainInput::from_token_sequences(vec![
            vec![5, 5, 6],
            vec![],
            vec![6, 5],
        ]))
        .unwrap();
    assert_eq!(report.training_sequence_count, 3);
    assert_eq!(report.training_token_count, 5);
    assert_eq!(report.observed_vocab_size, 2);
    let state = engine.state();
    assert_eq!(state.observed_token_counts.get(&5), Some(&3));
    assert_eq!(state.observed_token_counts.get(&6), Some(&2));
    assert_eq!(state.next_token_counts.get(&5).and_then(|m| m.get(&5)), Some(&1));
    assert_eq!(state.next_token_counts.get(&5).and_then(|m| m.get(&6)), Some(&1));
    assert_eq!(state.next_token_counts.get(&6).and_then(|m| m.get(&5)), Some(&1));
    // the empty sequence has no screens
    assert_eq!(report.screen_layout_count, 2);
}

#[test]
fn training_replaces_previous_state() {
    let mut engine = MultiscreenEngine::new(MultiscreenConfig::tiny()).unwrap();
    engine
        .train(TrainInput::from_token_sequences(vec![vec![9, 9, 9, 9]]))
        .unwrap();
    let input = vec![vec![1, 2], vec![2, 3]];
    let first = engine
        .train(TrainInput::from_token_sequences(input.clone()))
        .unwrap();
    let second = engine
        .train(TrainInput::from_token_ids(input))
        .unwrap();
    assert_eq!(first, second);
    assert_eq!(engine.state().observed_token_counts.get(&9), None);
}

#[test]
fn fallback_and_errors() {
    let mut config = MultiscreenConfig::tiny();
    config.inference.use_input_token_fallback = false;
    let engine = MultiscreenEngine::new(config).unwrap();
    let err = engine.infer_tokens(&[1]).unwrap_err();
    assert_eq!(
        err,
        Error::Inference(
            "no trained transition, fallback token, or input fallback available".to_string()
        )
    );
    // with no tokens to answer there is nothing to fail on
    assert_eq!(engine.infer_tokens(&[]).unwrap().output_token_ids, Vec::<u32>::new());

    let mut trained = MultiscreenEngine::new(config).unwrap();
    trained
        .train(TrainInput::from_token_sequences(vec![vec![4, 4, 7]]))
        .unwrap();
    // 7 has no successor: the most frequent token overall (4) answers
    assert_eq!(trained.infer_tokens(&[7, 4]).unwrap().output_token_ids, vec![4, 4]);
}

#[test]
fn input_fallback_echoes_tokens_without_transitions() {
    let mut engine = MultiscreenEngine::new(MultiscreenConfig::tiny()).unwrap();
    engine
        .train(TrainInput::from_token_sequences(vec![vec![4, 4, 7]]))
        .unwrap();
    // 7 has no learned successor and the input fallback is on: it is echoed,
    // although 4 is the most frequent token
    assert_eq!(engine.infer_tokens(&[7, 4, 9]).unwrap().output_token_ids, vec![7, 4, 9]);
}

#[test]
fn training_replaces_and_repeats() {
    let input = vec![vec![1, 2, 3], vec![1, 2, 4]];
    let mut dirty = MultiscreenEngine::new(MultiscreenConfig::tiny()).unwrap();
    dirty
        .train(TrainInput::from_token_sequences(vec![vec![9, 8, 7, 6]]))
        .unwrap();
    let mut fresh = MultiscreenEngine::new(MultiscreenConfig::tiny()).unwrap();
    let a = dirty.train(TrainInput::from_token_sequences(input.clone())).unwrap();
    let b = fresh.train(TrainInput::from_token_sequences(input.clone())).unwrap();
    assert_eq!(a, b);
    let again = fresh.train(TrainInput::from_token_sequences(input)).unwrap();
    assert_eq!(again, b);
    assert_eq!(
        dirty.infer_tokens(&[9, 1, 2]).unwrap().output_token_ids,
        fresh.infer_tokens(&[9, 1, 2]).unwrap().output_token_ids
    );
    assert_eq!(fresh.infer_tokens(&[9, 1, 2]).unwrap().output_token_ids, vec![9, 2, 3]);
}

#[test]
fn output_limit_cuts_output() {
    let mut config = MultiscreenConfig::tiny();
    config.inference.max_inference_tokens = Some(2);
    let engine = MultiscreenEngine::new(config).unwrap();
    let output = engine.infer_tokens(&[3, 4, 5, 6]).unwrap();
    assert_eq!(output.output_token_ids, vec![3, 4]);
    assert_eq!(output.layout.sequence_len(), 4);
}

#[test]
fn engine_rejects_invalid_config() {
    let mut config = MultiscreenConfig::tiny();
    config.screens.screen_stride_tokens = 0;
    assert_eq!(
        MultiscreenEngine::new(config).unwrap_err(),
        Error::Config("screen_stride_tokens must be greater than zero".to_string())
    );
    assert!(MultiscreenEngine::from_state(config, ScreeningState::default()).is_err());
}

#[test]
fn screening_state_predicts_most_frequent_successor() {
    let mut state = ScreeningState::default();
    let layout = ScreenLayout::build(&MultiscreenConfig::tiny(), 7).unwrap();
    state.observe_token_sequence(&[1, 3, 1, 2, 1, 2, 8], &layout);
    assert_eq!(state.predict_next_token(1), Some(2));
    assert_eq!(state.predict_next_token(2), Some(1));
    assert_eq!(state.predict_next_token(8), None);
    assert_eq!(state.fallback_token(), Some(1));
    let report = state.report();
    assert_eq!(report.training_sequence_count, 1);
    assert_eq!(report.training_token_count, 7);
    assert_eq!(report.observed_vocab_size, 4);
    assert_eq!(report.screen_layout_count, layout.screens().len());
    assert_eq!(report.screening_tile_count, layout.screening_tile_count());
    state.clear();
    assert_eq!(state.fallback_token(), None);
    assert_eq!(state.report().training_token_count, 0);
}

#[test]
fn report_sums_observations() {
    let config = MultiscreenConfig::tiny();
    let first = ScreenLayout::build(&config, 10).unwrap();
    let second = ScreenLayout::build(&config, 3).unwrap();
    let mut state = ScreeningState::default();
    state.observe_token_sequence(&[1, 2, 3, 4, 5, 6, 7, 8, 9, 1], &first);
    state.observe_token_sequence(&[1, 20, 30], &second);
    let report = state.report();
    assert_eq!(report.training_sequence_count, 2);
    assert_eq!(report.training_token_count, 13);
    assert_eq!(report.observed_vocab_size, 11);
    assert_eq!(report.screen_layout_count, 3);
    assert_eq!(report.screening_tile_count, 6);
    assert_eq!(state.report(), report);
}

#[test]
fn train_input_emptiness() {
    assert!(TrainInput::from_token_sequences(vec![]).is_empty());
    assert!(!TrainInput::from_token_sequences(vec![vec![]]).is_empty());
}

#[test]
fn train_with_huge_tile_stride_uses_tail_tile() {
    let mut config = MultiscreenConfig::tiny();
    config.tiles.tile_stride_tokens = usize::MAX;
    let mut engine = MultiscreenEngine::new(config).unwrap();
    let report = engine
        .train(TrainInput::from_token_sequences(vec![vec![1, 2, 3, 4, 5, 6]]))
        .unwrap();
    assert_eq!(report.training_token_count, 6);
    assert_eq!(report.screen_layout_count, 1);
    assert_eq!(report.screening_tile_count, 2);
}
