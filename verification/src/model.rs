use crate::config::{is_positive_finite_f32_bits, positive_finite_f32_bits};
use crate::error::{reports_config_problem, Error, Result};
use vstd::prelude::*;
use vstd::string::StringExecFns;

verus! {

/// Bit pattern of the IEEE-754 single-precision value `10000.0`, the RoPE base.
pub const ROPE_THETA_BITS: u32 = 0x461c_4000u32;

/// Bit pattern of the IEEE-754 single-precision value `1e-5`, the RMSNorm epsilon.
pub const RMS_NORM_EPS_BITS: u32 = 0x3727_c5acu32;

/// Supported Syncopate parameter budgets.
///
/// The final count is approximate because ID embeddings scale with the
/// caller's vocabulary size.
#[derive(Clone, Copy, Debug, PartialEq, Eq, Structural)]
pub enum SyncopateParameterBudget {
    Params1M,
    Params5M,
    Params10M,
    Params50M,
    Params100M,
}

impl SyncopateParameterBudget {
    /// Every budget, smallest first.
    pub fn all() -> (budgets: [Self; 5])
        ensures
            budgets@ == seq![
                SyncopateParameterBudget::Params1M,
                SyncopateParameterBudget::Params5M,
                SyncopateParameterBudget::Params10M,
                SyncopateParameterBudget::Params50M,
                SyncopateParameterBudget::Params100M,
            ],
    {
        let budgets = [
            SyncopateParameterBudget::Params1M,
            SyncopateParameterBudget::Params5M,
            SyncopateParameterBudget::Params10M,
            SyncopateParameterBudget::Params50M,
            SyncopateParameterBudget::Params100M,
        ];
        assert(budgets@ =~= seq![
            SyncopateParameterBudget::Params1M,
            SyncopateParameterBudget::Params5M,
            SyncopateParameterBudget::Params10M,
            SyncopateParameterBudget::Params50M,
            SyncopateParameterBudget::Params100M,
        ]);
        budgets
    }

    /// Short human-readable name of the budget.
    pub open spec fn label_text(self) -> Seq<char> {
        match self {
            SyncopateParameterBudget::Params1M => "1M"@,
            SyncopateParameterBudget::Params5M => "5M"@,
            SyncopateParameterBudget::Params10M => "10M"@,
            SyncopateParameterBudget::Params50M => "50M"@,
            SyncopateParameterBudget::Params100M => "100M"@,
        }
    }

    pub fn label(self) -> (label: &'static str)
        ensures
            label@ == self.label_text(),
    {
        match self {
            SyncopateParameterBudget::Params1M => "1M",
            SyncopateParameterBudget::Params5M => "5M",
            SyncopateParameterBudget::Params10M => "10M",
            SyncopateParameterBudget::Params50M => "50M",
            SyncopateParameterBudget::Params100M => "100M",
        }
    }

    /// Number of parameters the budget aims at.
    pub open spec fn target(self) -> usize {
        match self {
            SyncopateParameterBudget::Params1M => 1_000_000,
            SyncopateParameterBudget::Params5M => 5_000_000,
            SyncopateParameterBudget::Params10M => 10_000_000,
            SyncopateParameterBudget::Params50M => 50_000_000,
            SyncopateParameterBudget::Params100M => 100_000_000,
        }
    }

    pub fn target_parameter_count(self) -> (count: usize)
        ensures
            count == self.target(),
    {
        match self {
            SyncopateParameterBudget::Params1M => 1_000_000,
            SyncopateParameterBudget::Params5M => 5_000_000,
            SyncopateParameterBudget::Params10M => 10_000_000,
            SyncopateParameterBudget::Params50M => 50_000_000,
            SyncopateParameterBudget::Params100M => 100_000_000,
        }
    }
}

/// Attention kernel used inside each decoder block.
#[derive(Clone, Copy, Debug, PartialEq, Eq, Structural)]
pub enum AttentionKernel {
    /// Causal softmax attention; the default.
    Softmax,
    /// Normalized second-order causal attention.
    HigherOrder,
}

impl Default for AttentionKernel {
    fn default() -> (kernel: Self)
        ensures
            kernel == AttentionKernel::Softmax,
    {
        AttentionKernel::Softmax
    }
}

/// Decoder-only model configuration.
///
/// The RoPE base and the RMSNorm epsilon are single-precision floats, held
/// here as their IEEE-754 bit patterns (`f32::to_bits`).
#[derive(Clone, Copy, Debug, PartialEq, Eq, Structural)]
pub struct SyncopateModelConfig {
    /// Vocabulary size.
    pub vocab_size: usize,
    /// Context length.
    pub seq_len: usize,
    /// Number of decoder blocks.
    pub layers: usize,
    /// Action-ID embedding and residual width.
    pub d_model: usize,
    /// Query heads.
    pub attention_heads: usize,
    /// Shared key/value heads. Use fewer than `attention_heads` for GQA/MQA.
    pub kv_heads: usize,
    /// SwiGLU hidden width.
    pub intermediate_size: usize,
    /// Causal attention kernel.
    pub attention_kernel: AttentionKernel,
    /// RoPE base, as `f32` bits.
    pub rope_theta_bits: u32,
    /// RMSNorm epsilon, as `f32` bits.
    pub rms_norm_eps_bits: u32,
}

/// A configuration with the given dimensions, softmax attention, RoPE base
/// `10000.0` and RMSNorm epsilon `1e-5`.
pub open spec fn dimensions_config(
    vocab_size: usize,
    seq_len: usize,
    layers: usize,
    d_model: usize,
    attention_heads: usize,
    kv_heads: usize,
    intermediate_size: usize,
) -> SyncopateModelConfig {
    SyncopateModelConfig {
        vocab_size,
        seq_len,
        layers,
        d_model,
        attention_heads,
        kv_heads,
        intermediate_size,
        attention_kernel: AttentionKernel::Softmax,
        rope_theta_bits: ROPE_THETA_BITS,
        rms_norm_eps_bits: RMS_NORM_EPS_BITS,
    }
}

/// `value` cut at `usize::MAX`.
pub open spec fn saturate(value: int) -> int {
    if value > usize::MAX {
        usize::MAX as int
    } else {
        value
    }
}

/// Product of `a` and `b`, cut at `usize::MAX`.
fn saturating_product(a: usize, b: usize) -> (product: usize)
    ensures
        product == saturate(a * b),
{
    match a.checked_mul(b) {
        Some(product) => product,
        None => usize::MAX,
    }
}

/// The preset of `budget` for the given vocabulary and context sizes.
pub open spec fn budget_config(budget: SyncopateParameterBudget, vocab_size: usize, seq_len: usize) -> SyncopateModelConfig {
    match budget {
        SyncopateParameterBudget::Params1M => dimensions_config(vocab_size, seq_len, 2, 96, 4, 1, 256),
        SyncopateParameterBudget::Params5M => dimensions_config(vocab_size, seq_len, 8, 192, 6, 2, 512),
        SyncopateParameterBudget::Params10M => dimensions_config(vocab_size, seq_len, 10, 256, 8, 2, 704),
        SyncopateParameterBudget::Params50M => dimensions_config(
            vocab_size,
            seq_len,
            16,
            512,
            8,
            2,
            1408,
        ),
        SyncopateParameterBudget::Params100M => dimensions_config(
            vocab_size,
            seq_len,
            15,
            768,
            12,
            4,
            2048,
        ),
    }
}

impl SyncopateModelConfig {
    pub fn tiny() -> (config: Self)
        ensures
            config == dimensions_config(64, 64, 2, 96, 4, 1, 256),
            config.is_valid(),
    {
        Self::from_dimensions(64, 64, 2, 96, 4, 1, 256)
    }

    pub fn tiny_for_tests() -> (config: Self)
        ensures
            config == dimensions_config(32, 8, 1, 16, 4, 1, 32),
            config.is_valid(),
    {
        Self::from_dimensions(32, 8, 1, 16, 4, 1, 32)
    }

    pub fn for_parameter_budget(
        budget: SyncopateParameterBudget,
        vocab_size: usize,
        seq_len: usize,
    ) -> (config: Self)
        ensures
            config == budget_config(budget, vocab_size, seq_len),
    {
        match budget {
            SyncopateParameterBudget::Params1M => Self::preset_1m(vocab_size, seq_len),
            SyncopateParameterBudget::Params5M => Self::preset_5m(vocab_size, seq_len),
            SyncopateParameterBudget::Params10M => Self::preset_10m(vocab_size, seq_len),
            SyncopateParameterBudget::Params50M => Self::preset_50m(vocab_size, seq_len),
            SyncopateParameterBudget::Params100M => Self::preset_100m(vocab_size, seq_len),
        }
    }

    pub fn preset_1m(vocab_size: usize, seq_len: usize) -> (config: Self)
        ensures
            config == dimensions_config(vocab_size, seq_len, 2, 96, 4, 1, 256),
    {
        Self::from_dimensions(vocab_size, seq_len, 2, 96, 4, 1, 256)
    }

    pub fn preset_action(vocab_size: usize, seq_len: usize) -> (config: Self)
        ensures
            config == dimensions_config(vocab_size, seq_len, 2, 64, 4, 1, 128),
    {
        Self::from_dimensions(vocab_size, seq_len, 2, 64, 4, 1, 128)
    }

    pub fn preset_5m(vocab_size: usize, seq_len: usize) -> (config: Self)
        ensures
            config == dimensions_config(vocab_size, seq_len, 8, 192, 6, 2, 512),
    {
        Self::from_dimensions(vocab_size, seq_len, 8, 192, 6, 2, 512)
    }

    pub fn preset_10m(vocab_size: usize, seq_len: usize) -> (config: Self)
        ensures
            config == dimensions_config(vocab_size, seq_len, 10, 256, 8, 2, 704),
    {
        Self::from_dimensions(vocab_size, seq_len, 10, 256, 8, 2, 704)
    }

    pub fn preset_50m(vocab_size: usize, seq_len: usize) -> (config: Self)
        ensures
            config == dimensions_config(vocab_size, seq_len, 16, 512, 8, 2, 1408),
    {
        Self::from_dimensions(vocab_size, seq_len, 16, 512, 8, 2, 1408)
    }

    pub fn preset_100m(vocab_size: usize, seq_len: usize) -> (config: Self)
        ensures
            config == dimensions_config(vocab_size, seq_len, 15, 768, 12, 4, 2048),
    {
        Self::from_dimensions(vocab_size, seq_len, 15, 768, 12, 4, 2048)
    }

    pub fn with_attention_kernel(self, kernel: AttentionKernel) -> (config: Self)
        ensures
            config == (SyncopateModelConfig { attention_kernel: kernel, ..self }),
    {
        let mut config = self;
        config.attention_kernel = kernel;
        config
    }

    /// Width of one attention head: `d_model / max(attention_heads, 1)`.
    pub open spec fn spec_head_dim(&self) -> int {
        if self.attention_heads == 0 {
            self.d_model as int
        } else {
            self.d_model as int / self.attention_heads as int
        }
    }

    /// Parameter count as computed with arithmetic that saturates at
    /// `usize::MAX` at every step.
    pub open spec fn saturated_parameter_count(&self) -> int {
        let d = self.d_model as int;
        let kv_width = saturate(self.kv_heads * self.spec_head_dim());
        let embedding = saturate(self.vocab_size * d);
        let attention = saturate(
            saturate(saturate(d * d) + saturate(saturate(2 * d) * kv_width)) + saturate(d * d),
        );
        let ffn = saturate(saturate(3 * d) * self.intermediate_size);
        let norm = saturate(2 * d);
        let per_layer = saturate(saturate(attention + ffn) + norm);
        saturate(saturate(embedding + saturate(self.layers * per_layer)) + d)
    }

    /// Exact parameter count: tied embedding, per layer the four attention
    /// projections, the three SwiGLU matrices and two norm weights, and the
    /// final norm.
    pub open spec fn exact_parameter_count(&self) -> int {
        let d = self.d_model as int;
        let kv_width = self.kv_heads * self.spec_head_dim();
        let per_layer = d * d + 2 * d * kv_width + d * d + 3 * d * self.intermediate_size + 2 * d;
        self.vocab_size * d + self.layers * per_layer + d
    }

    pub fn estimated_parameter_count(&self) -> (count: usize)
        ensures
            count == self.saturated_parameter_count(),
    {
        let head_dim = self.head_dim();
        let kv_width = saturating_product(self.kv_heads, head_dim);
        let embedding_params = saturating_product(self.vocab_size, self.d_model);
        let attention_params = saturating_product(self.d_model, self.d_model).saturating_add(
            saturating_product(saturating_product(2, self.d_model), kv_width),
        ).saturating_add(saturating_product(self.d_model, self.d_model));
        let ffn_params = saturating_product(
            saturating_product(3, self.d_model),
            self.intermediate_size,
        );
        let norm_params = saturating_product(2, self.d_model);
        let per_layer = attention_params.saturating_add(ffn_params).saturating_add(norm_params);
        embedding_params.saturating_add(saturating_product(self.layers, per_layer)).saturating_add(
            self.d_model,
        )
    }

    pub fn from_dimensions(
        vocab_size: usize,
        seq_len: usize,
        layers: usize,
        d_model: usize,
        attention_heads: usize,
        kv_heads: usize,
        intermediate_size: usize,
    ) -> (config: Self)
        ensures
            config == dimensions_config(
                vocab_size,
                seq_len,
                layers,
                d_model,
                attention_heads,
                kv_heads,
                intermediate_size,
            ),
    {
        SyncopateModelConfig {
            vocab_size,
            seq_len,
            layers,
            d_model,
            attention_heads,
            kv_heads,
            intermediate_size,
            attention_kernel: AttentionKernel::Softmax,
            rope_theta_bits: ROPE_THETA_BITS,
            rms_norm_eps_bits: RMS_NORM_EPS_BITS,
        }
    }

    pub fn head_dim(&self) -> (dim: usize)
        ensures
            dim == self.spec_head_dim(),
    {
        if self.attention_heads == 0 {
            self.d_model
        } else {
            self.d_model / self.attention_heads
        }
    }

    /// The first problem that makes the configuration invalid, if any.
    pub open spec fn problem(&self) -> Option<Seq<char>> {
        if self.vocab_size == 0 {
            Some("vocab_size must be greater than zero"@)
        } else if self.seq_len == 0 {
            Some("seq_len must be greater than zero"@)
        } else if self.layers == 0 {
            Some("layers must be greater than zero"@)
        } else if self.d_model == 0 {
            Some("d_model must be greater than zero"@)
        } else if self.attention_heads == 0 {
            Some("attention_heads must be greater than zero"@)
        } else if self.kv_heads == 0 {
            Some("kv_heads must be greater than zero"@)
        } else if self.d_model % self.attention_heads != 0 {
            Some("d_model must be divisible by attention_heads"@)
        } else if self.attention_heads % self.kv_heads != 0 {
            Some("attention_heads must be divisible by kv_heads"@)
        } else if self.intermediate_size == 0 {
            Some("intermediate_size must be greater than zero"@)
        } else if !is_positive_finite_f32_bits(self.rope_theta_bits) {
            Some("rope_theta must be positive and finite"@)
        } else if !is_positive_finite_f32_bits(self.rms_norm_eps_bits) {
            Some("rms_norm_eps must be positive and finite"@)
        } else {
            None
        }
    }

    pub open spec fn is_valid(&self) -> bool {
        self.problem() is None
    }

    pub fn validate(&self) -> (result: Result<()>)
        ensures
            reports_config_problem(result, self.problem()),
    {
        ensure(self.vocab_size > 0, "vocab_size must be greater than zero")?;
        ensure(self.seq_len > 0, "seq_len must be greater than zero")?;
        ensure(self.layers > 0, "layers must be greater than zero")?;
        ensure(self.d_model > 0, "d_model must be greater than zero")?;
        ensure(self.attention_heads > 0, "attention_heads must be greater than zero")?;
        ensure(self.kv_heads > 0, "kv_heads must be greater than zero")?;
        ensure(
            self.d_model.is_multiple_of(self.attention_heads),
            "d_model must be divisible by attention_heads",
        )?;
        ensure(
            self.attention_heads.is_multiple_of(self.kv_heads),
            "attention_heads must be divisible by kv_heads",
        )?;
        ensure(self.intermediate_size > 0, "intermediate_size must be greater than zero")?;
        ensure(
            positive_finite_f32_bits(self.rope_theta_bits),
            "rope_theta must be positive and finite",
        )?;
        ensure(
            positive_finite_f32_bits(self.rms_norm_eps_bits),
            "rms_norm_eps must be positive and finite",
        )?;
        Ok(())
    }
}

/// Whenever the exact parameter count fits in `usize`, the estimate computed
/// with saturating arithmetic is that exact count.
pub proof fn lemma_estimate_is_exact(config: SyncopateModelConfig)
    requires
        config.exact_parameter_count() <= usize::MAX,
    ensures
        config.saturated_parameter_count() == config.exact_parameter_count(),
{
    let d = config.d_model as int;
    let v = config.vocab_size as int;
    let l = config.layers as int;
    let i = config.intermediate_size as int;
    let h = config.spec_head_dim();
    let kv_heads = config.kv_heads as int;
    assert(h >= 0) by (nonlinear_arith)
        requires
            h == (if config.attention_heads == 0 {
                d
            } else {
                d / config.attention_heads as int
            }),
            d >= 0,
    ;
    let kv = kv_heads * h;
    assert(kv >= 0) by (nonlinear_arith)
        requires
            kv == kv_heads * h,
            kv_heads >= 0,
            h >= 0,
    ;
    let per = d * d + 2 * d * kv + d * d + 3 * d * i + 2 * d;
    let m = usize::MAX as int;
    assert(v * d + l * per + d <= m);
    assert(d * d >= 0 && 2 * d * kv >= 0 && 3 * d * i >= 0 && v * d >= 0) by (nonlinear_arith)
        requires
            d >= 0,
            kv >= 0,
            i >= 0,
            v >= 0,
    ;
    assert(per >= 0);
    assert(l * per >= 0) by (nonlinear_arith)
        requires
            l >= 0,
            per >= 0,
    ;
    assert(v * d <= m);
    assert(d <= m);
    assert(saturate(v * d) == v * d);
    let kv_width = saturate(kv_heads * h);
    let attention = saturate(
        saturate(saturate(d * d) + saturate(saturate(2 * d) * kv_width)) + saturate(d * d),
    );
    let ffn = saturate(saturate(3 * d) * i);
    let norm = saturate(2 * d);
    let per_layer = saturate(saturate(attention + ffn) + norm);
    if l == 0 {
        assert(l * per_layer == 0) by (nonlinear_arith)
            requires
                l == 0,
        ;
        assert(l * per == 0) by (nonlinear_arith)
            requires
                l == 0,
        ;
    } else {
        assert(per <= l * per) by (nonlinear_arith)
            requires
                l >= 1,
                per >= 0,
        ;
        assert(per <= m);
        assert(saturate(d * d) == d * d);
        assert(saturate(2 * d) == 2 * d);
        if i == 0 {
            assert(saturate(3 * d) * i == 0) by (nonlinear_arith)
                requires
                    i == 0,
            ;
            assert(3 * d * i == 0) by (nonlinear_arith)
                requires
                    i == 0,
            ;
        } else {
            assert(3 * d <= 3 * d * i) by (nonlinear_arith)
                requires
                    i >= 1,
                    d >= 0,
            ;
            assert(saturate(3 * d) == 3 * d);
        }
        if d == 0 {
            assert(2 * d * saturate(kv) == 0 && 2 * d * kv == 0) by (nonlinear_arith)
                requires
                    d == 0,
            ;
        } else {
            assert(kv <= 2 * d * kv) by (nonlinear_arith)
                requires
                    d >= 1,
                    kv >= 0,
            ;
            assert(saturate(kv) == kv);
        }
        assert(saturate(2 * d) * saturate(kv_heads * h) == 2 * d * kv);
        assert(saturate((3 * d) * i) == 3 * d * i);
        assert(saturate(3 * d) * i == 3 * d * i);
        assert(attention == d * d + 2 * d * kv + d * d);
        assert(ffn == 3 * d * i);
        assert(norm == 2 * d);
        assert(per_layer == per);
    }
}

/// The last `seq_len` IDs of `context` (all of it when shorter), followed by
/// `pad` up to `seq_len` entries.
pub open spec fn context_window_spec(context: Seq<u32>, seq_len: nat, pad: u32) -> Seq<u32> {
    let suffix = if context.len() > seq_len {
        context.skip(context.len() - seq_len)
    } else {
        context
    };
    suffix + Seq::new((seq_len - suffix.len()) as nat, |i: int| pad)
}

/// Builds the model input for `context`: its last `seq_len` IDs, left
/// aligned and padded with `pad_action_id`.
pub fn context_window(context: &[u32], seq_len: usize, pad_action_id: u32) -> (input: Vec<u32>)
    ensures
        input@ == context_window_spec(context@, seq_len as nat, pad_action_id),
        input@.len() == seq_len,
        context@.len() >= seq_len ==> input@ == context@.subrange(
            context@.len() - seq_len,
            context@.len() as int,
        ),
        context@.len() < seq_len ==> input@ == context@ + Seq::new(
            (seq_len - context@.len()) as nat,
            |i: int| pad_action_id,
        ),
{
    let skip = if context.len() > seq_len {
        context.len() - seq_len
    } else {
        0
    };
    let kept = context.len() - skip;
    let mut input: Vec<u32> = Vec::new();
    let mut i: usize = 0;
    while i < seq_len
        invariant
            skip == (if context.len() > seq_len {
                context.len() - seq_len
            } else {
                0
            }),
            kept == context.len() - skip,
            kept <= seq_len,
            i <= seq_len,
            input@.len() == i,
            forall|k: int|
                0 <= k < i ==> #[trigger] input@[k] == if k < kept {
                    context@[skip + k]
                } else {
                    pad_action_id
                },
        decreases seq_len - i,
    {
        if i < kept {
            input.push(context[skip + i]);
        } else {
            input.push(pad_action_id);
        }
        i = i + 1;
    }
    assert(input@ =~= context_window_spec(context@, seq_len as nat, pad_action_id));
    if context.len() >= seq_len {
        assert(input@ =~= context@.subrange(context@.len() - seq_len, context@.len() as int));
    } else {
        assert(input@ =~= context@ + Seq::new(
            (seq_len - context@.len()) as nat,
            |i: int| pad_action_id,
        ));
    }
    input
}

/// Character of a decimal digit.
pub open spec fn digit_char(digit: nat) -> char {
    if digit == 0 {
        '0'
    } else if digit == 1 {
        '1'
    } else if digit == 2 {
        '2'
    } else if digit == 3 {
        '3'
    } else if digit == 4 {
        '4'
    } else if digit == 5 {
        '5'
    } else if digit == 6 {
        '6'
    } else if digit == 7 {
        '7'
    } else if digit == 8 {
        '8'
    } else {
        '9'
    }
}

/// Decimal digits of `value`, most significant first, without leading zeros.
pub open spec fn decimal_text(value: nat) -> Seq<char>
    decreases value,
{
    if value < 10 {
        seq![digit_char(value)]
    } else {
        decimal_text(value / 10) + seq![digit_char(value % 10)]
    }
}

/// The one-character text of a decimal digit.
fn digit_str(digit: u32) -> (text: &'static str)
    requires
        digit < 10,
    ensures
        text@ == seq![digit_char(digit as nat)],
{
    proof {
        reveal_strlit("0");
        reveal_strlit("1");
        reveal_strlit("2");
        reveal_strlit("3");
        reveal_strlit("4");
        reveal_strlit("5");
        reveal_strlit("6");
        reveal_strlit("7");
        reveal_strlit("8");
        reveal_strlit("9");
    }
    let text = match digit {
        0 => "0",
        1 => "1",
        2 => "2",
        3 => "3",
        4 => "4",
        5 => "5",
        6 => "6",
        7 => "7",
        8 => "8",
        _ => "9",
    };
    assert(text@ =~= seq![digit_char(digit as nat)]);
    text
}

/// Decimal text of `value`, as `u32`'s `Display` writes it.
fn u32_decimal(value: u32) -> (text: String)
    ensures
        text@ == decimal_text(value as nat),
    decreases value,
{
    if value < 10 {
        String::from_str(digit_str(value))
    } else {
        let head = u32_decimal(value / 10);
        let text = head.concat(digit_str(value % 10));
        assert(text@ =~= decimal_text(value as nat));
        text
    }
}

/// Message of the error raised for an action ID above `i32::MAX`.
pub open spec fn action_id_too_large_message(value: u32) -> Seq<char> {
    "action id "@ + decimal_text(value as nat) + " exceeds i32::MAX"@
}

/// Converts action IDs to the signed integers tensors take, failing at the
/// first ID above `i32::MAX`.
pub fn checked_action_ids(values: &[u32]) -> (result: Result<Vec<i32>>)
    ensures
        (forall|i: int| 0 <= i < values@.len() ==> #[trigger] values@[i] <= i32::MAX) ==> (
        result matches Ok(ids) && ids@.len() == values@.len() && forall|i: int|
            0 <= i < values@.len() ==> #[trigger] ids@[i] == values@[i]),
        forall|i: int|
            0 <= i < values@.len() && #[trigger] values@[i] > i32::MAX && (forall|j: int|
                0 <= j < i ==> values@[j] <= i32::MAX) ==> (result matches Err(e) && e is Config
                && e.message() == action_id_too_large_message(values@[i])),
{
    let mut ids: Vec<i32> = Vec::new();
    let mut i: usize = 0;
    while i < values.len()
        invariant
            i <= values.len(),
            ids@.len() == i,
            forall|k: int| 0 <= k < i ==> values@[k] <= i32::MAX,
            forall|k: int| 0 <= k < i ==> #[trigger] ids@[k] == values@[k],
        decreases values.len() - i,
    {
        let value = values[i];
        if value > 2147483647 {
            let text = String::from_str("action id ").concat(u32_decimal(value).as_str()).concat(
                " exceeds i32::MAX",
            );
            return Err(Error::Config(text));
        }
        ids.push(value as i32);
        i = i + 1;
    }
    Ok(ids)
}

/// Multiplier of the linear congruential generator behind weight init.
pub const LCG_MULTIPLIER: u64 = 6364136223846793005u64;

/// Increment of the linear congruential generator behind weight init.
pub const LCG_INCREMENT: u64 = 1442695040888963407u64;

/// Advances the weight-init generator: `seed * LCG_MULTIPLIER +
/// LCG_INCREMENT` modulo `2^64`.
pub fn next_seed(seed: u64) -> (next: u64)
    ensures
        next as int == (seed as int * LCG_MULTIPLIER as int + LCG_INCREMENT as int)
            % 0x1_0000_0000_0000_0000int,
{
    let product = seed.wrapping_mul(LCG_MULTIPLIER);
    let next = product.wrapping_add(LCG_INCREMENT);
    assert(product as int == (seed as int * LCG_MULTIPLIER as int) % 0x1_0000_0000_0000_0000int);
    assert(next as int == (product as int + LCG_INCREMENT as int) % 0x1_0000_0000_0000_0000int);
    proof {
        let m = 0x1_0000_0000_0000_0000int;
        let a = seed as int * LCG_MULTIPLIER as int;
        let c = LCG_INCREMENT as int;
        vstd::arithmetic::div_mod::lemma_add_mod_noop(a, c, m);
        vstd::arithmetic::div_mod::lemma_small_mod(c as nat, m as nat);
        vstd::arithmetic::div_mod::lemma_mod_bound(a, m);
        vstd::arithmetic::div_mod::lemma_small_mod((a % m) as nat, m as nat);
        assert((a % m + c) % m == (a + c) % m);
    }
    next
}

/// The 24 high bits of a generator state that feed one uniform sample.
pub fn uniform_bits(seed: u64) -> (bits: u32)
    ensures
        bits as int == seed as int / 0x100_0000_0000int,
        bits < 0x100_0000,
{
    let shifted = seed >> 40u64;
    assert(shifted == seed / 0x100_0000_0000u64) by (bit_vector)
        requires
            shifted == seed >> 40u64,
    ;
    assert(shifted < 0x100_0000u64) by (bit_vector)
        requires
            shifted == seed >> 40u64,
    ;
    shifted as u32
}

/// `Ok` when `condition` holds, otherwise a configuration error with `message`.
pub fn ensure(condition: bool, message: &str) -> (result: Result<()>)
    ensures
        reports_config_problem(
            result,
            if condition {
                None
            } else {
                Some(message@)
            },
        ),
{
    if condition {
        Ok(())
    } else {
        Err(Error::Config(String::from_str(message)))
    }
}


/// The exact parameter count of the preset of `budget`: `vocab_size` times
/// the model width, for the tied embedding, plus what the layers and final
/// norm hold.
#[verifier::spinoff_prover]
proof fn lemma_budget_count(budget: SyncopateParameterBudget, vocab_size: usize, seq_len: usize)
    ensures
        ({
            let config = budget_config(budget, vocab_size, seq_len);
            config.exact_parameter_count() == vocab_size * config.d_model + match budget {
                SyncopateParameterBudget::Params1M => 194016int,
                SyncopateParameterBudget::Params5M => 3148992int,
                SyncopateParameterBudget::Params10M => 7050496int,
                SyncopateParameterBudget::Params50M => 45105664int,
                SyncopateParameterBudget::Params100M => 94395648int,
            }
        }),
{
    let config = budget_config(budget, vocab_size, seq_len);
    let v = vocab_size as int;
    match budget {
        SyncopateParameterBudget::Params1M => {
            assert(config.spec_head_dim() == 24);
            assert(config.kv_heads * config.spec_head_dim() == 24);
            assert(config.exact_parameter_count() == v * 96 + 194016);
        },
        SyncopateParameterBudget::Params5M => {
            assert(config.spec_head_dim() == 32);
            assert(config.kv_heads * config.spec_head_dim() == 64);
            assert(config.exact_parameter_count() == v * 192 + 3148992);
        },
        SyncopateParameterBudget::Params10M => {
            assert(config.spec_head_dim() == 32);
            assert(config.kv_heads * config.spec_head_dim() == 64);
            assert(config.exact_parameter_count() == v * 256 + 7050496);
        },
        SyncopateParameterBudget::Params50M => {
            assert(config.spec_head_dim() == 64);
            assert(config.kv_heads * config.spec_head_dim() == 128);
            assert(config.exact_parameter_count() == v * 512 + 45105664);
        },
        SyncopateParameterBudget::Params100M => {
            assert(config.spec_head_dim() == 64);
            assert(config.kv_heads * config.spec_head_dim() == 256);
            assert(config.exact_parameter_count() == v * 768 + 94395648);
        },
    }
}

/// A larger budget gives a model with strictly more parameters, whatever
/// the vocabulary and context sizes.
pub proof fn lemma_budgets_grow(
    smaller: SyncopateParameterBudget,
    larger: SyncopateParameterBudget,
    vocab_size: usize,
    seq_len: usize,
)
    requires
        smaller.target() < larger.target(),
    ensures
        budget_config(smaller, vocab_size, seq_len).exact_parameter_count() < budget_config(
            larger,
            vocab_size,
            seq_len,
        ).exact_parameter_count(),
{
    lemma_budget_count(smaller, vocab_size, seq_len);
    lemma_budget_count(larger, vocab_size, seq_len);
    let a = budget_config(smaller, vocab_size, seq_len).d_model as int;
    let b = budget_config(larger, vocab_size, seq_len).d_model as int;
    let v = vocab_size as int;
    assert(a < b);
    assert(v * a <= v * b) by (nonlinear_arith)
        requires
            a < b,
            v >= 0,
    ;
}

/// With a vocabulary of 8192 IDs, the preset of every budget has its target
/// parameter count to within a tenth.
pub proof fn lemma_budget_meets_target(budget: SyncopateParameterBudget, seq_len: usize)
    ensures
        ({
            let count = budget_config(budget, 8192, seq_len).exact_parameter_count();
            &&& 10 * count >= 9 * budget.target()
            &&& 10 * count <= 11 * budget.target()
        }),
{
    lemma_budget_count(budget, 8192, seq_len);
}

/// The model input for `context` has `seq_len` entries; a context longer
/// than the window gives its newest `seq_len` IDs, a shorter one is kept in
/// front, followed by padding.
pub proof fn lemma_context_window_keeps_newest(context: Seq<u32>, seq_len: nat, pad: u32)
    ensures
        context_window_spec(context, seq_len, pad).len() == seq_len,
        context.len() >= seq_len ==> context_window_spec(context, seq_len, pad) == context.subrange(
            context.len() - seq_len,
            context.len() as int,
        ),
        context.len() < seq_len ==> {
            &&& forall|i: int|
                0 <= i < context.len() ==> #[trigger] context_window_spec(
                    context,
                    seq_len,
                    pad,
                )[i] == context[i]
            &&& forall|i: int|
                context.len() <= i < seq_len ==> #[trigger] context_window_spec(
                    context,
                    seq_len,
                    pad,
                )[i] == pad
        },
{
    let window = context_window_spec(context, seq_len, pad);
    if context.len() >= seq_len {
        assert(window =~= context.subrange(context.len() - seq_len, context.len() as int));
    }
}

} // verus!
