use crate::error::{Error, Result};
use crate::model::{budget_config, AttentionKernel, SyncopateModelConfig, SyncopateParameterBudget};
use crate::windows::TrainingWindows;
use vstd::prelude::*;
use vstd::string::StringExecFns;

verus! {

/// The model configuration a trainer builds: the preset of `budget` for the
/// vocabulary and context sizes, with the chosen attention kernel. The
/// vocabulary size is required.
pub fn trainer_model_config(
    vocab_size: Option<usize>,
    budget: SyncopateParameterBudget,
    seq_len: usize,
    kernel: AttentionKernel,
) -> (result: Result<SyncopateModelConfig>)
    ensures
        match vocab_size {
            None => result matches Err(e) && e is Config && e.message()
                == "vocab_size is required; call .vocab_size(n) before .build()"@,
            Some(size) => result == Ok::<SyncopateModelConfig, Error>(
                SyncopateModelConfig { attention_kernel: kernel, ..budget_config(budget, size, seq_len) },
            ),
        },
{
    let vocab_size = match vocab_size {
        Some(size) => size,
        None => {
            return Err(
                Error::Config(
                    String::from_str("vocab_size is required; call .vocab_size(n) before .build()"),
                ),
            );
        },
    };
    Ok(
        SyncopateModelConfig::for_parameter_budget(
            budget,
            vocab_size,
            seq_len,
        ).with_attention_kernel(kernel),
    )
}

/// Checks a training request before any optimizer step: the batch size must
/// be positive and at least one window must have been cut.
pub fn check_training_request(batch_size: usize, windows: &TrainingWindows) -> (result: Result<()>)
    ensures
        batch_size == 0 ==> (result matches Err(e) && e is Training && e.message()
            == "batch_size must be greater than zero"@),
        batch_size > 0 && windows@.windows.len() == 0 ==> (result matches Err(e) && e is Training
            && e.message() == "training requires at least one sequence with two or more IDs"@),
        batch_size > 0 && windows@.windows.len() > 0 ==> result is Ok,
{
    if batch_size == 0 {
        return Err(Error::Training(String::from_str("batch_size must be greater than zero")));
    }
    if windows.is_empty() {
        return Err(
            Error::Training(
                String::from_str("training requires at least one sequence with two or more IDs"),
            ),
        );
    }
    Ok(())
}

/// Whether a periodic snapshot is due after optimizer step `step`: every
/// `interval` steps, never when `interval` is zero.
pub fn is_checkpoint_step(interval: usize, step: usize) -> (due: bool)
    requires
        step < usize::MAX,
    ensures
        due == (interval > 0 && (step + 1) % (interval as int) == 0),
{
    interval > 0 && (step + 1) % interval == 0
}

/// Rejects an empty training set; `chat` selects the wording for chat pairs.
pub fn check_training_set(count: usize, chat: bool) -> (result: Result<()>)
    ensures
        count > 0 ==> result is Ok,
        count == 0 && !chat ==> (result matches Err(e) && e is Training && e.message()
            == "no training sequences provided"@),
        count == 0 && chat ==> (result matches Err(e) && e is Training && e.message()
            == "no training chat pairs provided"@),
{
    if count == 0 {
        if chat {
            return Err(Error::Training(String::from_str("no training chat pairs provided")));
        }
        return Err(Error::Training(String::from_str("no training sequences provided")));
    }
    Ok(())
}

/// Number of batches needed to go over `window_count` windows once.
pub fn evaluation_batch_count(window_count: usize, batch_size: usize) -> (count: usize)
    requires
        batch_size > 0,
    ensures
        count == (window_count as int + batch_size as int - 1) / batch_size as int,
{
    let whole = window_count / batch_size;
    if window_count % batch_size == 0 {
        proof {
            let w = window_count as int;
            let b = batch_size as int;
            vstd::arithmetic::div_mod::lemma_fundamental_div_mod(w, b);
            vstd::arithmetic::div_mod::lemma_div_multiples_vanish_fancy(w / b, b - 1, b);
            assert((w + b - 1) / b == w / b) by {
                assert(w + b - 1 == b * (w / b) + (b - 1));
            }
        }
        whole
    } else {
        proof {
            let w = window_count as int;
            let b = batch_size as int;
            vstd::arithmetic::div_mod::lemma_fundamental_div_mod(w, b);
            let r = w % b;
            let q = w / b;
            assert(w + b - 1 == b * (q + 1) + (r - 1)) by (nonlinear_arith)
                requires
                    w == b * q + r,
            ;
            vstd::arithmetic::div_mod::lemma_div_multiples_vanish_fancy(q + 1, r - 1, b);
            assert(q < w) by (nonlinear_arith)
                requires
                    w == b * q + r,
                    b >= 2,
                    q >= 0,
                    r > 0,
            ;
        }
        whole + 1
    }
}

} // verus!
