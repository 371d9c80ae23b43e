use syncopate_machine::browser::{
    after_webgpu_failure, browser_config_from_json, cpu_failure_message, default_browser_config,
    first_load_step, last_logit_index, BrowserBackendPreference, LoadStep, LoadedBackend,
    RuntimeState, RuntimeStatus,
};
use syncopate_machine::inference::{find_file, GenerationConfig};
use syncopate_machine::model::{AttentionKernel, SyncopateModelConfig};
use syncopate_machine::runtime::{check_device_setting, device_setting};

#[test]
fn preference_labels() {
    assert_eq!(BrowserBackendPreference::Auto.label(), "auto");
    assert_eq!(BrowserBackendPreference::WebGpu.label(), "webgpu");
    assert_eq!(BrowserBackendPreference::Cpu.label(), "cpu");
    assert_eq!(LoadedBackend::WebGpu.label(), "webgpu");
    assert_eq!(LoadedBackend::Cpu.label(), "cpu");
}

#[test]
fn default_browser_config_picks_preset() {
    assert_eq!(
        default_browser_config(15, 16),
        SyncopateModelConfig::preset_1m(15, 16)
    );
    assert_eq!(
        default_browser_config(8192, 128),
        SyncopateModelConfig::preset_1m(8192, 128)
    );
    assert_eq!(default_browser_config(15, 16).attention_kernel, AttentionKernel::Softmax);
}

#[test]
fn config_json_sets_only_the_kernel() {
    let config = browser_config_from_json(
        r#"{"vocab_size": 15, "seq_len": 16, "layers": 5, "d_model": 16, "attention_kernel": "higher-order"}"#,
        8192,
        128,
    )
    .unwrap();
    assert_eq!(
        config,
        SyncopateModelConfig::preset_1m(8192, 128).with_attention_kernel(AttentionKernel::HigherOrder)
    );
    assert_eq!(config.layers, 2);
    assert_eq!(config.d_model, 96);
    assert_eq!(config.attention_heads, 4);
    assert_eq!(config.kv_heads, 1);
    assert_eq!(config.intermediate_size, 256);
    let config = browser_config_from_json("{}", 15, 16).unwrap();
    assert_eq!(config, SyncopateModelConfig::preset_1m(15, 16));
    assert_eq!(config.attention_kernel, AttentionKernel::Softmax);
    let err = browser_config_from_json("not json", 15, 16).unwrap_err();
    assert!(err.starts_with("parse config.json: "), "{}", err);
    assert!(err.len() > "parse config.json: ".len());
}

#[test]
fn load_steps_follow_preference() {
    assert_eq!(first_load_step(BrowserBackendPreference::Cpu), LoadStep::TryCpu);
    assert_eq!(first_load_step(BrowserBackendPreference::Auto), LoadStep::TryWebGpu);
    assert_eq!(first_load_step(BrowserBackendPreference::WebGpu), LoadStep::TryWebGpu);
    assert_eq!(
        after_webgpu_failure(BrowserBackendPreference::Auto, "no adapter"),
        LoadStep::TryCpu
    );
    assert_eq!(
        after_webgpu_failure(BrowserBackendPreference::WebGpu, "no adapter"),
        LoadStep::Fail("WebGPU model load failed (no adapter)".to_string())
    );
    assert_eq!(
        cpu_failure_message(Some("a"), "b"),
        "WebGPU failed (a); CPU fallback failed (b)"
    );
    assert_eq!(cpu_failure_message(None, "b"), "CPU model load failed (b)");
}

#[test]
fn runtime_state_moves_through_a_load() {
    let mut state = RuntimeState::new();
    assert_eq!(state.status(), RuntimeStatus::Idle);
    assert_eq!(state.vocab_size(), 0);
    assert_eq!(state.seq_len(), 0);
    assert_eq!(state.backend_label(), "none");
    state.begin_load();
    assert_eq!(state.status(), RuntimeStatus::Loading);
    let reported = state.fail("HTTP 404".to_string());
    assert_eq!(reported, "HTTP 404");
    assert_eq!(state.status(), RuntimeStatus::Error);
    assert_eq!(state.last_error(), Some("HTTP 404"));
    state.begin_load();
    assert_eq!(state.last_error(), None);
    state.finish_load(SyncopateModelConfig::preset_action(15, 16), LoadedBackend::Cpu);
    assert_eq!(state.status(), RuntimeStatus::Ready);
    assert_eq!(state.vocab_size(), 15);
    assert_eq!(state.seq_len(), 16);
    assert_eq!(state.backend_label(), "cpu");
    assert_eq!(state.config(), Some(SyncopateModelConfig::preset_action(15, 16)));
}

#[test]
fn last_logit_follows_context() {
    assert_eq!(last_logit_index(3, 16), 2);
    assert_eq!(last_logit_index(40, 16), 15);
    assert_eq!(last_logit_index(0, 16), 0);
}

#[test]
fn generation_defaults() {
    let config = GenerationConfig::default();
    assert_eq!(config.max_new_tokens, 64);
    assert_eq!(config.pad_token_id, 0);
}

#[test]
fn find_file_takes_first_existing() {
    let candidates = vec!["a/config.json".to_string(), "b/config.json".to_string()];
    assert_eq!(
        find_file(&candidates, &[false, true]).unwrap(),
        "b/config.json"
    );
    let err = find_file(&candidates, &[false, false]).unwrap_err();
    assert_eq!(
        err.to_string(),
        "I/O error: file not found; searched:\n  a/config.json\n  b/config.json"
    );
}

#[test]
fn device_settings() {
    assert_eq!(device_setting(None, None), "auto");
    assert_eq!(device_setting(None, Some("cpu".to_string())), "cpu");
    assert_eq!(
        device_setting(Some("x".to_string()), Some("cpu".to_string())),
        "x"
    );
    assert!(check_device_setting("auto").is_ok());
    assert!(check_device_setting("  CPU\n").is_ok());
    assert!(check_device_setting("Flex").is_ok());
    assert!(check_device_setting("").is_ok());
    assert_eq!(
        check_device_setting(" Gpu ").unwrap_err().to_string(),
        "invalid configuration: unsupported SYNCOPATE_DEVICE=\"gpu\"; use auto"
    );
}
