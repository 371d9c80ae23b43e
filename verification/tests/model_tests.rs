use syncopate_machine::error::Error;
use syncopate_machine::model::{
    checked_action_ids, context_window, ensure, next_seed, uniform_bits, AttentionKernel,
    SyncopateModelConfig, SyncopateParameterBudget,
};
use syncopate_machine::training::{
    check_training_request, check_training_set, evaluation_batch_count, is_checkpoint_step,
    trainer_model_config,
};
use syncopate_machine::windows::TrainingWindows;

#[test]
fn budget_labels_and_targets() {
    let labels: Vec<&str> = SyncopateParameterBudget::all()
        .iter()
        .map(|b| b.label())
        .collect();
    assert_eq!(labels, vec!["1M", "5M", "10M", "50M", "100M"]);
    let targets: Vec<usize> = SyncopateParameterBudget::all()
        .iter()
        .map(|b| b.target_parameter_count())
        .collect();
    assert_eq!(
        targets,
        vec![1_000_000, 5_000_000, 10_000_000, 50_000_000, 100_000_000]
    );
}

#[test]
fn tiny_for_tests_parameter_count() {
    let config = SyncopateModelConfig::tiny_for_tests();
    config.validate().unwrap();
    // embedding 32*16, per layer 16*16 + 2*16*4 + 16*16 + 3*16*32 + 2*16, final norm 16
    assert_eq!(
        config.estimated_parameter_count(),
        32 * 16 + (256 + 128 + 256 + 1536 + 32) + 16
    );
    assert_eq!(f32::from_bits(config.rope_theta_bits), 10_000.0);
    assert_eq!(f32::from_bits(config.rms_norm_eps_bits), 1e-5);
}

#[test]
fn action_preset_matches_documented_size() {
    // the shipped action model: 15 IDs, d_model 16, one layer, FFN width 16
    let config = SyncopateModelConfig::from_dimensions(15, 16, 1, 16, 4, 1, 16);
    assert_eq!(config.estimated_parameter_count(), 1_696);
}

#[test]
fn parameter_count_saturates() {
    let config = SyncopateModelConfig::from_dimensions(usize::MAX, 1, 1, 2, 1, 1, 1);
    assert_eq!(config.estimated_parameter_count(), usize::MAX);
}

#[test]
fn presets_follow_budgets() {
    let config = SyncopateModelConfig::for_parameter_budget(SyncopateParameterBudget::Params5M, 100, 32);
    assert_eq!(config, SyncopateModelConfig::preset_5m(100, 32));
    assert_eq!((config.layers, config.d_model, config.attention_heads, config.kv_heads, config.intermediate_size), (8, 192, 6, 2, 512));
    let config = SyncopateModelConfig::preset_100m(1, 2).with_attention_kernel(AttentionKernel::HigherOrder);
    assert_eq!(config.attention_kernel, AttentionKernel::HigherOrder);
    assert_eq!(config.layers, 15);
    assert_eq!(SyncopateModelConfig::preset_action(15, 16).d_model, 64);
    assert_eq!(SyncopateModelConfig::preset_1m(15, 16).d_model, 96);
    assert_eq!(SyncopateModelConfig::preset_10m(15, 16).intermediate_size, 704);
    assert_eq!(SyncopateModelConfig::preset_50m(15, 16).intermediate_size, 1408);
    assert_eq!(SyncopateModelConfig::tiny().d_model, 96);
    assert_eq!(AttentionKernel::default(), AttentionKernel::Softmax);
}

#[test]
fn model_config_validation_messages() {
    let mut config = SyncopateModelConfig::tiny();
    config.d_model = 95;
    assert_eq!(
        config.validate(),
        Err(Error::Config("d_model must be divisible by attention_heads".to_string()))
    );
    let mut config = SyncopateModelConfig::tiny();
    config.kv_heads = 3;
    assert_eq!(
        config.validate(),
        Err(Error::Config("attention_heads must be divisible by kv_heads".to_string()))
    );
    let mut config = SyncopateModelConfig::tiny();
    config.rope_theta_bits = f32::INFINITY.to_bits();
    assert_eq!(
        config.validate(),
        Err(Error::Config("rope_theta must be positive and finite".to_string()))
    );
    let mut config = SyncopateModelConfig::tiny();
    config.rms_norm_eps_bits = (-1e-5f32).to_bits();
    assert_eq!(
        config.validate(),
        Err(Error::Config("rms_norm_eps must be positive and finite".to_string()))
    );
    let mut config = SyncopateModelConfig::tiny();
    config.vocab_size = 0;
    config.seq_len = 0;
    assert_eq!(
        config.validate(),
        Err(Error::Config("vocab_size must be greater than zero".to_string()))
    );
    assert_eq!(ensure(true, "never"), Ok(()));
    assert_eq!(ensure(false, "boom"), Err(Error::Config("boom".to_string())));
}

#[test]
fn context_window_keeps_the_newest_ids() {
    assert_eq!(context_window(&[1, 2, 3], 5, 0), vec![1, 2, 3, 0, 0]);
    assert_eq!(context_window(&[1, 2, 3, 4, 5, 6], 4, 9), vec![3, 4, 5, 6]);
    assert_eq!(context_window(&[], 2, 7), vec![7, 7]);
}

#[test]
fn action_ids_convert_or_name_the_offender() {
    assert_eq!(checked_action_ids(&[0, 5, 2147483647]), Ok(vec![0, 5, 2147483647]));
    assert_eq!(
        checked_action_ids(&[1, 4000000000, 3000000000]),
        Err(Error::Config("action id 4000000000 exceeds i32::MAX".to_string()))
    );
}

#[test]
fn weight_init_generator_steps() {
    let seed: u64 = 0x5359_4e43_4f50_4154;
    let expected = seed
        .wrapping_mul(6364136223846793005)
        .wrapping_add(1442695040888963407);
    assert_eq!(next_seed(seed), expected);
    assert_eq!(next_seed(0), 1442695040888963407);
    assert_eq!(uniform_bits(u64::MAX), (1 << 24) - 1);
    assert_eq!(uniform_bits(1 << 40), 1);
}

#[test]
fn training_windows_cut_sequences() {
    let windows = TrainingWindows::from_sequences(&[vec![1, 2, 3, 4, 5], vec![7], vec![8, 9]], 3, 0).unwrap();
    assert_eq!(windows.len(), 3);
    assert!(!windows.is_empty());
    assert_eq!(windows.seq_len(), 3);
    let batch = windows.batch(0, 3);
    assert_eq!(batch.inputs, vec![1, 2, 3, 4, 0, 0, 8, 0, 0]);
    assert_eq!(batch.targets, vec![2, 3, 4, 5, 0, 0, 9, 0, 0]);
    assert_eq!(
        batch.loss_mask,
        vec![true, true, true, true, false, false, true, false, false]
    );
    // masked positions: one per transition (4 + 1)
    assert_eq!(batch.loss_mask.iter().filter(|m| **m).count(), 5);
    // round robin
    let batch = windows.batch(1, 2);
    assert_eq!(batch.inputs, vec![8, 0, 0, 1, 2, 3]);
}

#[test]
fn training_requests_are_checked() {
    let empty = TrainingWindows::from_sequences(&[vec![1]], 4, 0).unwrap();
    assert!(empty.is_empty());
    assert_eq!(
        check_training_request(0, &empty),
        Err(Error::Training("batch_size must be greater than zero".to_string()))
    );
    assert_eq!(
        check_training_request(2, &empty),
        Err(Error::Training(
            "training requires at least one sequence with two or more IDs".to_string()
        ))
    );
    let some = TrainingWindows::from_sequences(&[vec![1, 2]], 4, 0).unwrap();
    assert_eq!(check_training_request(2, &some), Ok(()));
    assert!(is_checkpoint_step(5, 4));
    assert!(!is_checkpoint_step(5, 5));
    assert!(!is_checkpoint_step(0, 9));
    assert_eq!(
        check_training_set(0, false),
        Err(Error::Training("no training sequences provided".to_string()))
    );
    assert_eq!(
        check_training_set(0, true),
        Err(Error::Training("no training chat pairs provided".to_string()))
    );
    assert_eq!(check_training_set(3, true), Ok(()));
    assert_eq!(evaluation_batch_count(10, 4), 3);
    assert_eq!(evaluation_batch_count(8, 4), 2);
    assert_eq!(evaluation_batch_count(0, 4), 0);
}

#[test]
fn builder_requires_vocab_size() {
    let result = trainer_model_config(
        None,
        SyncopateParameterBudget::Params10M,
        128,
        AttentionKernel::Softmax,
    );
    assert!(result.is_err(), "build should fail without vocab_size");
    let msg = result.unwrap_err().to_string();
    assert!(msg.contains("vocab_size"), "error should mention vocab_size: {}", msg);
    let config = trainer_model_config(
        Some(1000),
        SyncopateParameterBudget::Params1M,
        64,
        AttentionKernel::HigherOrder,
    )
    .unwrap();
    assert_eq!(config.vocab_size, 1000);
    assert_eq!(config.seq_len, 64);
    assert_eq!(config.d_model, 96);
    assert_eq!(config.attention_kernel, AttentionKernel::HigherOrder);
}

#[test]
fn chat_windows_count_response_targets_only() {
    let windows = TrainingWindows::from_chat_pairs(&[(vec![1, 2], vec![3, 4])], 2, 0);
    assert_eq!(windows.len(), 2);
    assert_eq!(windows.seq_len(), 2);
    let batch = windows.batch(0, 2);
    assert_eq!(batch.inputs, vec![1, 2, 3, 0]);
    assert_eq!(batch.targets, vec![2, 3, 4, 0]);
    assert_eq!(batch.loss_mask, vec![false, true, true, false]);

    let windows = TrainingWindows::from_chat_pairs(&[(vec![], vec![5, 6, 7]), (vec![9], vec![])], 8, 0);
    assert_eq!(windows.len(), 1);
    let batch = windows.batch(0, 1);
    assert_eq!(&batch.targets[..3], &[6, 7, 0]);
    assert_eq!(batch.loss_mask.iter().filter(|m| **m).count(), 2);
}
