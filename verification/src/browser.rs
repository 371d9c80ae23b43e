use crate::model::{dimensions_config, AttentionKernel, SyncopateModelConfig};
use crate::text::{contains_run, contains_text};
use vstd::prelude::*;
use vstd::string::StringExecFns;

verus! {

/// Browser inference backend preference.
#[derive(Clone, Copy, Debug, PartialEq, Eq, Structural)]
pub enum BrowserBackendPreference {
    /// Try WebGPU first, then fall back to CPU when no usable adapter exists.
    Auto,
    /// Require WebGPU. This surfaces adapter/device errors to the caller.
    WebGpu,
    /// Force the CPU backend.
    Cpu,
}

impl BrowserBackendPreference {
    /// Short name of the preference.
    pub open spec fn label_text(self) -> Seq<char> {
        match self {
            BrowserBackendPreference::Auto => "auto"@,
            BrowserBackendPreference::WebGpu => "webgpu"@,
            BrowserBackendPreference::Cpu => "cpu"@,
        }
    }

    pub fn label(self) -> (label: &'static str)
        ensures
            label@ == self.label_text(),
    {
        match self {
            BrowserBackendPreference::Auto => "auto",
            BrowserBackendPreference::WebGpu => "webgpu",
            BrowserBackendPreference::Cpu => "cpu",
        }
    }
}

/// Status of the browser-side model runtime.
#[derive(Clone, Copy, Debug, PartialEq, Eq, Structural)]
pub enum RuntimeStatus {
    /// Not loaded yet.
    Idle,
    /// Currently fetching the checkpoint.
    Loading,
    /// Ready to generate tokens.
    Ready,
    /// A previous operation failed.
    Error,
}

/// Backend a browser model was loaded on.
#[derive(Clone, Copy, Debug, PartialEq, Eq, Structural)]
pub enum LoadedBackend {
    WebGpu,
    Cpu,
}

impl LoadedBackend {
    /// Short name of the backend.
    pub open spec fn label_text(self) -> Seq<char> {
        match self {
            LoadedBackend::WebGpu => "webgpu"@,
            LoadedBackend::Cpu => "cpu"@,
        }
    }

    pub fn label(self) -> (label: &'static str)
        ensures
            label@ == self.label_text(),
    {
        match self {
            LoadedBackend::WebGpu => "webgpu",
            LoadedBackend::Cpu => "cpu",
        }
    }
}

/// What loading a checkpoint does next.
#[derive(Clone, Debug, PartialEq, Eq)]
pub enum LoadStep {
    /// Build the model on the WebGPU backend.
    TryWebGpu,
    /// Build the model on the CPU backend.
    TryCpu,
    /// Give up with this message.
    Fail(String),
}

/// The first backend to try: the CPU when it is forced, WebGPU otherwise.
pub fn first_load_step(preference: BrowserBackendPreference) -> (step: LoadStep)
    ensures
        preference == BrowserBackendPreference::Cpu ==> step == LoadStep::TryCpu,
        preference != BrowserBackendPreference::Cpu ==> step == LoadStep::TryWebGpu,
{
    match preference {
        BrowserBackendPreference::Cpu => LoadStep::TryCpu,
        _ => LoadStep::TryWebGpu,
    }
}

/// What follows a failed WebGPU load: the CPU fallback under `Auto`, a
/// failure naming the WebGPU error otherwise.
pub fn after_webgpu_failure(preference: BrowserBackendPreference, error: &str) -> (step: LoadStep)
    ensures
        preference == BrowserBackendPreference::Auto ==> step == LoadStep::TryCpu,
        preference != BrowserBackendPreference::Auto ==> (step matches LoadStep::Fail(m) && m@
            == "WebGPU model load failed ("@ + error@ + ")"@),
{
    match preference {
        BrowserBackendPreference::Auto => LoadStep::TryCpu,
        _ => LoadStep::Fail(
            String::from_str("WebGPU model load failed (").concat(error).concat(")"),
        ),
    }
}

/// Message of a failed CPU load; `webgpu_error` is the error of the WebGPU
/// attempt that came before, if any.
pub fn cpu_failure_message(webgpu_error: Option<&str>, cpu_error: &str) -> (message: String)
    ensures
        match webgpu_error {
            Some(w) => message@ == "WebGPU failed ("@ + w@ + "); CPU fallback failed ("@
                + cpu_error@ + ")"@,
            None => message@ == "CPU model load failed ("@ + cpu_error@ + ")"@,
        },
{
    match webgpu_error {
        Some(w) => String::from_str("WebGPU failed (").concat(w).concat(
            "); CPU fallback failed (",
        ).concat(cpu_error).concat(")"),
        None => String::from_str("CPU model load failed (").concat(cpu_error).concat(")"),
    }
}

/// Bookkeeping of the browser runtime: loaded configuration, status, last
/// error and active backend.
#[derive(Debug)]
pub struct RuntimeState {
    config: Option<SyncopateModelConfig>,
    status: RuntimeStatus,
    last_error: Option<String>,
    backend_label: &'static str,
}

/// Abstract content of a [`RuntimeState`].
pub struct RuntimeModel {
    pub config: Option<SyncopateModelConfig>,
    pub status: RuntimeStatus,
    pub last_error: Option<Seq<char>>,
    pub backend_label: Seq<char>,
}

impl View for RuntimeState {
    type V = RuntimeModel;

    closed spec fn view(&self) -> RuntimeModel {
        RuntimeModel {
            config: self.config,
            status: self.status,
            last_error: match self.last_error {
                Some(m) => Some(m@),
                None => None,
            },
            backend_label: self.backend_label@,
        }
    }
}

impl RuntimeState {
    /// Nothing loaded yet.
    pub fn new() -> (state: Self)
        ensures
            state@.config is None,
            state@.status == RuntimeStatus::Idle,
            state@.last_error is None,
            state@.backend_label == "none"@,
    {
        RuntimeState {
            config: None,
            status: RuntimeStatus::Idle,
            last_error: None,
            backend_label: "none",
        }
    }

    /// A load starts: the status becomes `Loading` and the last error is
    /// cleared.
    pub fn begin_load(&mut self)
        ensures
            final(self)@.status == RuntimeStatus::Loading,
            final(self)@.last_error is None,
            final(self)@.config == old(self)@.config,
            final(self)@.backend_label == old(self)@.backend_label,
    {
        self.status = RuntimeStatus::Loading;
        self.last_error = None;
    }

    /// A load failed with `message`: the status becomes `Error`, the message
    /// is kept as last error and handed back.
    pub fn fail(&mut self, message: String) -> (reported: String)
        ensures
            reported@ == message@,
            final(self)@.status == RuntimeStatus::Error,
            final(self)@.last_error == Some(message@),
            final(self)@.config == old(self)@.config,
            final(self)@.backend_label == old(self)@.backend_label,
    {
        let reported = message.clone();
        self.status = RuntimeStatus::Error;
        self.last_error = Some(message);
        reported
    }

    /// A load succeeded on `backend` with `config`: the runtime is ready.
    pub fn finish_load(&mut self, config: SyncopateModelConfig, backend: LoadedBackend)
        ensures
            final(self)@.status == RuntimeStatus::Ready,
            final(self)@.config == Some(config),
            final(self)@.backend_label == backend.label_text(),
            final(self)@.last_error == old(self)@.last_error,
    {
        self.backend_label = backend.label();
        self.config = Some(config);
        self.status = RuntimeStatus::Ready;
    }

    /// Current runtime status.
    pub fn status(&self) -> (status: RuntimeStatus)
        ensures
            status == self@.status,
    {
        self.status
    }

    /// The loaded configuration, if any.
    pub fn config(&self) -> (config: Option<SyncopateModelConfig>)
        ensures
            config == self@.config,
    {
        self.config
    }

    /// Model vocab size (0 if not loaded).
    pub fn vocab_size(&self) -> (size: usize)
        ensures
            size == match self@.config {
                Some(c) => c.vocab_size,
                None => 0,
            },
    {
        match &self.config {
            Some(c) => c.vocab_size,
            None => 0,
        }
    }

    /// Model seq len (0 if not loaded).
    pub fn seq_len(&self) -> (len: usize)
        ensures
            len == match self@.config {
                Some(c) => c.seq_len,
                None => 0,
            },
    {
        match &self.config {
            Some(c) => c.seq_len,
            None => 0,
        }
    }

    /// Active browser inference backend.
    pub fn backend_label(&self) -> (label: &'static str)
        ensures
            label@ == self@.backend_label,
    {
        self.backend_label
    }

    /// Last error message.
    pub fn last_error(&self) -> (message: Option<&str>)
        ensures
            match message {
                Some(m) => self@.last_error == Some(m@),
                None => self@.last_error is None,
            },
    {
        match &self.last_error {
            Some(m) => Some(m.as_str()),
            None => None,
        }
    }
}

/// Model configuration used when no `config.json` is available: the 1M
/// preset with softmax attention.
pub fn default_browser_config(vocab_size: usize, seq_len: usize) -> (config: SyncopateModelConfig)
    ensures
        config == dimensions_config(vocab_size, seq_len, 2, 96, 4, 1, 256),
        config.attention_kernel == AttentionKernel::Softmax,
{
    SyncopateModelConfig::preset_1m(vocab_size, seq_len)
}

/// What `serde_json` reports when parsing `text` as a JSON value: `None` when
/// `text` is JSON, the parser's error message otherwise.
pub uninterp spec fn json_parse_error(text: Seq<char>) -> Option<Seq<char>>;

/// Parses `text` with `serde_json::from_str` into a `serde_json::Value`,
/// keeping only whether that succeeded; a failure yields the `Display` text
/// of the `serde_json::Error`. The contract only ties the result to the name
/// [`json_parse_error`] of `text`.
#[verifier::external_body]
fn check_json(text: &str) -> (checked: core::result::Result<(), String>)
    ensures
        match checked {
            Ok(()) => json_parse_error(text@) is None,
            Err(message) => json_parse_error(text@) == Some(message@),
        },
{
    match serde_json::from_str::<serde_json::Value>(text) {
        Ok(_) => Ok(()),
        Err(error) => Err(error.to_string()),
    }
}

/// The model configuration a `config.json` text gives on top of the 1M
/// preset for `vocab_size` and `seq_len`: only the attention kernel is taken
/// from the text, higher-order when it mentions `"higher-order"`.
pub open spec fn browser_config_outcome(text: Seq<char>, vocab_size: usize, seq_len: usize) -> core::result::Result<
    SyncopateModelConfig,
    Seq<char>,
> {
    match json_parse_error(text) {
        Some(message) => Err("parse config.json: "@ + message),
        None => Ok(
            SyncopateModelConfig {
                attention_kernel: if contains_run(text, "\"higher-order\""@) {
                    AttentionKernel::HigherOrder
                } else {
                    AttentionKernel::Softmax
                },
                ..dimensions_config(vocab_size, seq_len, 2, 96, 4, 1, 256)
            },
        ),
    }
}

/// Builds the model configuration for a `config.json` text: the 1M preset
/// for `vocab_size` and `seq_len`, with higher-order attention when the text
/// mentions `"higher-order"`; text that is not JSON is refused.
pub fn browser_config_from_json(text: &str, vocab_size: usize, seq_len: usize) -> (result: core::result::Result<
    SyncopateModelConfig,
    String,
>)
    ensures
        match browser_config_outcome(text@, vocab_size, seq_len) {
            Ok(config) => result == Ok::<SyncopateModelConfig, String>(config),
            Err(message) => result matches Err(m) && m@ == message,
        },
{
    let kernel = if contains_text(text, "\"higher-order\"") {
        AttentionKernel::HigherOrder
    } else {
        AttentionKernel::Softmax
    };
    match check_json(text) {
        Err(message) => Err(String::from_str("parse config.json: ").concat(message.as_str())),
        Ok(()) => Ok(SyncopateModelConfig::preset_1m(vocab_size, seq_len).with_attention_kernel(kernel)),
    }
}

/// Position of the logits of the newest ID of a context of `context_len`
/// IDs in a window of `seq_len` positions.
pub fn last_logit_index(context_len: usize, seq_len: usize) -> (index: usize)
    ensures
        index == (if context_len < seq_len {
            if context_len == 0 {
                0
            } else {
                context_len - 1
            }
        } else if seq_len == 0 {
            0
        } else {
            seq_len - 1
        }),
{
    let seq_actual = if context_len < seq_len {
        context_len
    } else {
        seq_len
    };
    seq_actual.saturating_sub(1)
}

} // verus!
