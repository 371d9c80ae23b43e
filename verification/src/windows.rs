use crate::error::{Error, Result};
use vstd::prelude::*;
use vstd::string::StringExecFns;

verus! {

/// `prefix` followed by `pad` up to `len` entries.
pub open spec fn padded(prefix: Seq<u32>, len: nat, pad: u32) -> Seq<u32> {
    prefix + Seq::new((len - prefix.len()) as nat, |i: int| pad)
}

/// Abstract content of a [`TrainingWindow`].
pub struct WindowModel {
    pub inputs: Seq<u32>,
    pub targets: Seq<u32>,
    pub loss_mask: Seq<bool>,
}

/// The window of `sequence` starting at `start`: up to `seq_len` input IDs,
/// each paired with the ID that follows it as target, padded with `pad`; the
/// mask marks the positions that hold a real prediction.
pub open spec fn window_at(sequence: Seq<u32>, start: int, seq_len: nat, pad: u32) -> WindowModel {
    let end = if start + seq_len + 1 < sequence.len() {
        start + seq_len + 1
    } else {
        sequence.len() as int
    };
    let chunk = sequence.subrange(start, end);
    let predictions = (chunk.len() - 1) as nat;
    WindowModel {
        inputs: padded(chunk.take(predictions as int), seq_len, pad),
        targets: padded(chunk.skip(1), seq_len, pad),
        loss_mask: Seq::new(seq_len, |i: int| i < predictions),
    }
}

/// The windows of `sequence` from `start` on, one every `seq_len` tokens,
/// as long as at least one prediction is left.
pub open spec fn windows_from(sequence: Seq<u32>, start: int, seq_len: nat, pad: u32) -> Seq<
    WindowModel,
>
    decreases sequence.len() - start,
{
    if start < 0 || start + 1 >= sequence.len() || seq_len == 0 {
        Seq::empty()
    } else if start + seq_len + 1 >= sequence.len() {
        seq![window_at(sequence, start, seq_len, pad)]
    } else {
        seq![window_at(sequence, start, seq_len, pad)] + windows_from(
            sequence,
            start + seq_len,
            seq_len,
            pad,
        )
    }
}

/// The windows of all `sequences`, sequence after sequence.
pub open spec fn all_windows(sequences: Seq<Seq<u32>>, seq_len: nat, pad: u32) -> Seq<WindowModel>
    decreases sequences.len(),
{
    if sequences.len() == 0 {
        Seq::empty()
    } else {
        all_windows(sequences.drop_last(), seq_len, pad) + windows_from(
            sequences.last(),
            0,
            seq_len,
            pad,
        )
    }
}

/// `window`, which starts at position `start` of its sequence, with the
/// positions whose target lies before position `first_target` taken out of
/// the loss mask.
pub open spec fn masked_before(window: WindowModel, start: int, first_target: int) -> WindowModel {
    WindowModel {
        loss_mask: Seq::new(
            window.loss_mask.len(),
            |i: int| window.loss_mask[i] && start + i + 1 >= first_target,
        ),
        ..window
    }
}

/// The windows of `sequence` from `start` on, as in [`windows_from`], with
/// only the targets from position `first_target` on counted in the loss.
pub open spec fn windows_counting_from(
    sequence: Seq<u32>,
    start: int,
    seq_len: nat,
    pad: u32,
    first_target: int,
) -> Seq<WindowModel>
    decreases sequence.len() - start,
{
    if start < 0 || start + 1 >= sequence.len() || seq_len == 0 {
        Seq::empty()
    } else if start + seq_len + 1 >= sequence.len() {
        seq![masked_before(window_at(sequence, start, seq_len, pad), start, first_target)]
    } else {
        seq![masked_before(window_at(sequence, start, seq_len, pad), start, first_target)]
            + windows_counting_from(sequence, start + seq_len, seq_len, pad, first_target)
    }
}

/// The windows of chat `pairs`, pair after pair: each pair is its prompt
/// followed by its response, and only response IDs count as targets.
pub open spec fn chat_windows(pairs: Seq<(Seq<u32>, Seq<u32>)>, seq_len: nat, pad: u32) -> Seq<
    WindowModel,
>
    decreases pairs.len(),
{
    if pairs.len() == 0 {
        Seq::empty()
    } else {
        chat_windows(pairs.drop_last(), seq_len, pad) + windows_counting_from(
            pairs.last().0 + pairs.last().1,
            0,
            seq_len,
            pad,
            pairs.last().0.len() as int,
        )
    }
}

/// One fixed-length training example: inputs, next-ID targets and the mask of
/// positions that carry a prediction.
#[derive(Clone, Debug)]
pub struct TrainingWindow {
    pub inputs: Vec<u32>,
    pub targets: Vec<u32>,
    pub loss_mask: Vec<bool>,
}

impl View for TrainingWindow {
    type V = WindowModel;

    open spec fn view(&self) -> WindowModel {
        WindowModel { inputs: self.inputs@, targets: self.targets@, loss_mask: self.loss_mask@ }
    }
}

/// All training windows cut from a set of sequences.
#[derive(Debug)]
pub struct TrainingWindows {
    windows: Vec<TrainingWindow>,
    seq_len: usize,
}

/// Abstract content of [`TrainingWindows`].
pub struct WindowsModel {
    pub windows: Seq<WindowModel>,
    pub seq_len: usize,
}

impl View for TrainingWindows {
    type V = WindowsModel;

    closed spec fn view(&self) -> WindowsModel {
        WindowsModel {
            windows: self.windows@.map_values(|w: TrainingWindow| w@),
            seq_len: self.seq_len,
        }
    }
}

/// The rows of batch number `step`: windows taken round-robin,
/// `batch_size` at a time.
pub open spec fn batch_rows(windows: Seq<WindowModel>, step: nat, batch_size: nat) -> Seq<
    WindowModel,
> {
    Seq::new(batch_size, |b: int| windows[(step * batch_size + b) % windows.len() as int])
}

/// Inputs of `rows`, row after row.
pub open spec fn flat_inputs(rows: Seq<WindowModel>) -> Seq<u32>
    decreases rows.len(),
{
    if rows.len() == 0 {
        Seq::empty()
    } else {
        flat_inputs(rows.drop_last()) + rows.last().inputs
    }
}

/// Targets of `rows`, row after row.
pub open spec fn flat_targets(rows: Seq<WindowModel>) -> Seq<u32>
    decreases rows.len(),
{
    if rows.len() == 0 {
        Seq::empty()
    } else {
        flat_targets(rows.drop_last()) + rows.last().targets
    }
}

/// Loss masks of `rows`, row after row.
pub open spec fn flat_mask(rows: Seq<WindowModel>) -> Seq<bool>
    decreases rows.len(),
{
    if rows.len() == 0 {
        Seq::empty()
    } else {
        flat_mask(rows.drop_last()) + rows.last().loss_mask
    }
}

/// The flattened inputs, targets and mask of one batch.
pub struct ActionBatch {
    pub inputs: Vec<u32>,
    pub targets: Vec<u32>,
    pub loss_mask: Vec<bool>,
}

/// A vector of `len` copies of `value`.
fn filled(value: u32, len: usize) -> (v: Vec<u32>)
    ensures
        v@ == Seq::new(len as nat, |i: int| value),
{
    let mut v: Vec<u32> = Vec::new();
    let mut i: usize = 0;
    while i < len
        invariant
            i <= len,
            v@ == Seq::new(i as nat, |k: int| value),
        decreases len - i,
    {
        v.push(value);
        i = i + 1;
        assert(v@ =~= Seq::new(i as nat, |k: int| value));
    }
    v
}

/// Builds the window of `sequence` that starts at `start`.
fn make_window(sequence: &Vec<u32>, start: usize, end: usize, seq_len: usize, pad: u32) -> (window:
    TrainingWindow)
    requires
        start + 1 < end <= sequence.len(),
        end == (if start + seq_len + 1 < sequence.len() {
            start + seq_len + 1
        } else {
            sequence.len() as int
        }),
    ensures
        window@ == window_at(sequence@, start as int, seq_len as nat, pad),
{
    let predictions = end - start - 1;
    let mut inputs = filled(pad, seq_len);
    let mut targets = filled(pad, seq_len);
    let mut loss_mask: Vec<bool> = Vec::new();
    let mut i: usize = 0;
    while i < seq_len
        invariant
            predictions == end - start - 1,
            predictions <= seq_len,
            start + 1 < end <= sequence.len(),
            i <= seq_len,
            inputs@.len() == seq_len,
            targets@.len() == seq_len,
            loss_mask@ == Seq::new(i as nat, |k: int| k < predictions),
            forall|k: int|
                0 <= k < seq_len ==> #[trigger] inputs@[k] == if k < i && k < predictions {
                    sequence@[start + k]
                } else {
                    pad
                },
            forall|k: int|
                0 <= k < seq_len ==> #[trigger] targets@[k] == if k < i && k < predictions {
                    sequence@[start + k + 1]
                } else {
                    pad
                },
        decreases seq_len - i,
    {
        if i < predictions {
            inputs.set(i, sequence[start + i]);
            targets.set(i, sequence[start + i + 1]);
            loss_mask.push(true);
        } else {
            loss_mask.push(false);
        }
        i = i + 1;
        assert(loss_mask@ =~= Seq::new(i as nat, |k: int| k < predictions));
    }
    let window = TrainingWindow { inputs, targets, loss_mask };
    proof {
        let model = window_at(sequence@, start as int, seq_len as nat, pad);
        let chunk = sequence@.subrange(start as int, end as int);
        assert(chunk.len() - 1 == predictions);
        assert(window@.inputs =~= model.inputs);
        assert(window@.targets =~= model.targets);
        assert(window@.loss_mask =~= model.loss_mask);
    }
    window
}

/// `window` with the positions whose target lies before `first_target`
/// taken out of its loss mask; the window starts at `start`.
fn mask_before(window: TrainingWindow, start: usize, first_target: usize) -> (masked:
    TrainingWindow)
    ensures
        masked@ == masked_before(window@, start as int, first_target as int),
{
    let mut loss_mask: Vec<bool> = Vec::new();
    let mut i: usize = 0;
    while i < window.loss_mask.len()
        invariant
            i <= window.loss_mask.len(),
            loss_mask@ == Seq::new(
                i as nat,
                |k: int| window.loss_mask@[k] && start + k + 1 >= first_target,
            ),
        decreases window.loss_mask.len() - i,
    {
        let counted = first_target <= start || first_target - start <= i + 1;
        loss_mask.push(window.loss_mask[i] && counted);
        i = i + 1;
        assert(loss_mask@ =~= Seq::new(
            i as nat,
            |k: int| window.loss_mask@[k] && start + k + 1 >= first_target,
        ));
    }
    let masked = TrainingWindow { inputs: window.inputs, targets: window.targets, loss_mask };
    assert(masked@.loss_mask =~= masked_before(window@, start as int, first_target as int).loss_mask);
    masked
}

/// `first` followed by `second`.
fn concatenated(first: &Vec<u32>, second: &Vec<u32>) -> (joined: Vec<u32>)
    ensures
        joined@ == first@ + second@,
{
    let mut joined = first.clone();
    let mut i: usize = 0;
    while i < second.len()
        invariant
            i <= second.len(),
            joined@ == first@ + second@.take(i as int),
        decreases second.len() - i,
    {
        joined.push(second[i]);
        i = i + 1;
        assert(joined@ =~= first@ + second@.take(i as int));
    }
    assert(second@.take(i as int) =~= second@);
    joined
}

impl TrainingWindows {
    /// Cuts every sequence with at least two IDs into windows of `seq_len`
    /// predictions; consecutive windows of a sequence start `seq_len` IDs
    /// apart, and the last one ends with the sequence.
    pub fn from_sequences(sequences: &[Vec<u32>], seq_len: usize, pad_action_id: u32) -> (result:
        Result<Self>)
        requires
            seq_len > 0 || forall|i: int| 0 <= i < sequences@.len() ==> #[trigger] sequences@[i].len()
                < 2,
        ensures
            result matches Ok(windows) && windows@.seq_len == seq_len && windows@.windows
                == all_windows(
                sequences@.map_values(|s: Vec<u32>| s@),
                seq_len as nat,
                pad_action_id,
            ),
    {
        let ghost all = sequences@.map_values(|s: Vec<u32>| s@);
        let mut windows: Vec<TrainingWindow> = Vec::new();
        let mut s: usize = 0;
        while s < sequences.len()
            invariant
                all == sequences@.map_values(|s: Vec<u32>| s@),
                seq_len > 0 || forall|i: int| 0 <= i < sequences@.len() ==> #[trigger] sequences@[i].len()
                    < 2,
                s <= sequences.len(),
                windows@.map_values(|w: TrainingWindow| w@) == all_windows(
                    all.take(s as int),
                    seq_len as nat,
                    pad_action_id,
                ),
            decreases sequences.len() - s,
        {
            let sequence = &sequences[s];
            let ghost before = windows@.map_values(|w: TrainingWindow| w@);
            proof {
                assert(all.take(s + 1).drop_last() =~= all.take(s as int));
                assert(all.take(s + 1).last() == sequence@);
            }
            if sequence.len() >= 2 {
                let mut start: usize = 0;
                loop
                    invariant_except_break
                        seq_len > 0,
                        start + 1 < sequence.len(),
                        windows@.map_values(|w: TrainingWindow| w@) + windows_from(
                            sequence@,
                            start as int,
                            seq_len as nat,
                            pad_action_id,
                        ) == before + windows_from(sequence@, 0, seq_len as nat, pad_action_id),
                    ensures
                        windows@.map_values(|w: TrainingWindow| w@) == before + windows_from(
                            sequence@,
                            0,
                            seq_len as nat,
                            pad_action_id,
                        ),
                    decreases sequence.len() - start,
                {
                    let end = if seq_len < sequence.len() - start - 1 {
                        start + seq_len + 1
                    } else {
                        sequence.len()
                    };
                    let window = make_window(sequence, start, end, seq_len, pad_action_id);
                    let ghost previous = windows@.map_values(|w: TrainingWindow| w@);
                    windows.push(window);
                    let ghost rest = windows_from(
                        sequence@,
                        start + seq_len,
                        seq_len as nat,
                        pad_action_id,
                    );
                    proof {
                        assert(windows@.map_values(|w: TrainingWindow| w@) =~= previous + seq![
                            window@,
                        ]);
                        assert(previous + (seq![window@] + rest) =~= previous + seq![window@]
                            + rest);
                    }
                    if end == sequence.len() {
                        assert(rest =~= Seq::<WindowModel>::empty());
                        assert(windows@.map_values(|w: TrainingWindow| w@) + rest =~= windows@.map_values(
                            |w: TrainingWindow| w@,
                        ));
                        break;
                    }
                    start = start + seq_len;
                }
            } else {
                assert(windows_from(sequence@, 0, seq_len as nat, pad_action_id) =~= Seq::<
                    WindowModel,
                >::empty());
                assert(before + Seq::<WindowModel>::empty() =~= before);
            }
            s = s + 1;
        }
        assert(all.take(s as int) =~= all);
        Ok(TrainingWindows { windows, seq_len })
    }

    /// Cuts chat `pairs` into windows: each pair is taken as its prompt
    /// followed by its response and cut as [`Self::from_sequences`] cuts a
    /// sequence, but only targets inside the response count in the loss.
    pub fn from_chat_pairs(pairs: &[(Vec<u32>, Vec<u32>)], seq_len: usize, pad_action_id: u32) -> (windows: Self)
        requires
            seq_len > 0,
        ensures
            windows@.seq_len == seq_len,
            windows@.windows == chat_windows(
                pairs@.map_values(|p: (Vec<u32>, Vec<u32>)| (p.0@, p.1@)),
                seq_len as nat,
                pad_action_id,
            ),
            masked_positions(windows@.windows) == total_response_targets(
                pairs@.map_values(|p: (Vec<u32>, Vec<u32>)| (p.0@, p.1@)),
            ),
    {
        let ghost all = pairs@.map_values(|p: (Vec<u32>, Vec<u32>)| (p.0@, p.1@));
        let mut windows: Vec<TrainingWindow> = Vec::new();
        let mut s: usize = 0;
        while s < pairs.len()
            invariant
                seq_len > 0,
                all == pairs@.map_values(|p: (Vec<u32>, Vec<u32>)| (p.0@, p.1@)),
                s <= pairs.len(),
                windows@.map_values(|w: TrainingWindow| w@) == chat_windows(
                    all.take(s as int),
                    seq_len as nat,
                    pad_action_id,
                ),
            decreases pairs.len() - s,
        {
            let prompt = &pairs[s].0;
            let sequence = concatenated(prompt, &pairs[s].1);
            let first_target = prompt.len();
            let ghost before = windows@.map_values(|w: TrainingWindow| w@);
            proof {
                assert(all.take(s + 1).drop_last() =~= all.take(s as int));
                assert(all.take(s + 1).last() == (prompt@, pairs@[s as int].1@));
            }
            if sequence.len() >= 2 {
                let mut start: usize = 0;
                loop
                    invariant_except_break
                        seq_len > 0,
                        start + 1 < sequence.len(),
                        windows@.map_values(|w: TrainingWindow| w@) + windows_counting_from(
                            sequence@,
                            start as int,
                            seq_len as nat,
                            pad_action_id,
                            first_target as int,
                        ) == before + windows_counting_from(
                            sequence@,
                            0,
                            seq_len as nat,
                            pad_action_id,
                            first_target as int,
                        ),
                    ensures
                        windows@.map_values(|w: TrainingWindow| w@) == before
                            + windows_counting_from(
                            sequence@,
                            0,
                            seq_len as nat,
                            pad_action_id,
                            first_target as int,
                        ),
                    decreases sequence.len() - start,
                {
                    let end = if seq_len < sequence.len() - start - 1 {
                        start + seq_len + 1
                    } else {
                        sequence.len()
                    };
                    let window = mask_before(
                        make_window(&sequence, start, end, seq_len, pad_action_id),
                        start,
                        first_target,
                    );
                    let ghost previous = windows@.map_values(|w: TrainingWindow| w@);
                    windows.push(window);
                    let ghost rest = windows_counting_from(
                        sequence@,
                        start + seq_len,
                        seq_len as nat,
                        pad_action_id,
                        first_target as int,
                    );
                    proof {
                        assert(windows@.map_values(|w: TrainingWindow| w@) =~= previous + seq![
                            window@,
                        ]);
                        assert(previous + (seq![window@] + rest) =~= previous + seq![window@]
                            + rest);
                    }
                    if end == sequence.len() {
                        assert(rest =~= Seq::<WindowModel>::empty());
                        assert(windows@.map_values(|w: TrainingWindow| w@) + rest =~= windows@.map_values(
                            |w: TrainingWindow| w@,
                        ));
                        break;
                    }
                    start = start + seq_len;
                }
            } else {
                assert(windows_counting_from(
                    sequence@,
                    0,
                    seq_len as nat,
                    pad_action_id,
                    first_target as int,
                ) =~= Seq::<WindowModel>::empty());
                assert(before + Seq::<WindowModel>::empty() =~= before);
            }
            s = s + 1;
        }
        assert(all.take(s as int) =~= all);
        proof {
            lemma_chat_windows_count(all, seq_len as nat, pad_action_id);
        }
        TrainingWindows { windows, seq_len }
    }

    pub fn is_empty(&self) -> (empty: bool)
        ensures
            empty == (self@.windows.len() == 0),
    {
        self.windows.len() == 0
    }

    pub fn len(&self) -> (n: usize)
        ensures
            n == self@.windows.len(),
    {
        self.windows.len()
    }

    /// Window length the windows were cut with.
    pub fn seq_len(&self) -> (n: usize)
        ensures
            n == self@.seq_len,
    {
        self.seq_len
    }

    /// Batch number `step`: `batch_size` windows taken round-robin from
    /// window `step * batch_size` on, flattened row after row.
    pub fn batch(&self, step: usize, batch_size: usize) -> (batch: ActionBatch)
        requires
            batch_size > 0 ==> self@.windows.len() > 0 && step * batch_size + batch_size
                <= usize::MAX + 1,
        ensures
            batch.inputs@ == flat_inputs(batch_rows(self@.windows, step as nat, batch_size as nat)),
            batch.targets@ == flat_targets(
                batch_rows(self@.windows, step as nat, batch_size as nat),
            ),
            batch.loss_mask@ == flat_mask(batch_rows(self@.windows, step as nat, batch_size as nat)),
    {
        let ghost models = self@.windows;
        let ghost rows = batch_rows(models, step as nat, batch_size as nat);
        let mut inputs: Vec<u32> = Vec::new();
        let mut targets: Vec<u32> = Vec::new();
        let mut loss_mask: Vec<bool> = Vec::new();
        let mut b: usize = 0;
        while b < batch_size
            invariant
                models == self.windows@.map_values(|w: TrainingWindow| w@),
                rows == batch_rows(models, step as nat, batch_size as nat),
                batch_size > 0 ==> models.len() > 0 && step * batch_size + batch_size <= usize::MAX
                    + 1,
                b <= batch_size,
                inputs@ == flat_inputs(rows.take(b as int)),
                targets@ == flat_targets(rows.take(b as int)),
                loss_mask@ == flat_mask(rows.take(b as int)),
            decreases batch_size - b,
        {
            proof {
                assert(step * batch_size + b < step * batch_size + batch_size) by (nonlinear_arith)
                    requires
                        b < batch_size,
                ;
            }
            let index = (step * batch_size + b) % self.windows.len();
            let window = &self.windows[index];
            proof {
                assert(rows.take(b + 1).drop_last() =~= rows.take(b as int));
                assert(rows.take(b + 1).last() == window@);
            }
            let mut k: usize = 0;
            let ghost start_inputs = inputs@;
            let ghost start_targets = targets@;
            let ghost start_mask = loss_mask@;
            while k < window.inputs.len()
                invariant
                    k <= window.inputs.len(),
                    inputs@ == start_inputs + window.inputs@.take(k as int),
                decreases window.inputs.len() - k,
            {
                inputs.push(window.inputs[k]);
                k = k + 1;
                assert(inputs@ =~= start_inputs + window.inputs@.take(k as int));
            }
            assert(window.inputs@.take(k as int) =~= window.inputs@);
            k = 0;
            while k < window.targets.len()
                invariant
                    k <= window.targets.len(),
                    targets@ == start_targets + window.targets@.take(k as int),
                decreases window.targets.len() - k,
            {
                targets.push(window.targets[k]);
                k = k + 1;
                assert(targets@ =~= start_targets + window.targets@.take(k as int));
            }
            assert(window.targets@.take(k as int) =~= window.targets@);
            k = 0;
            while k < window.loss_mask.len()
                invariant
                    k <= window.loss_mask.len(),
                    loss_mask@ == start_mask + window.loss_mask@.take(k as int),
                decreases window.loss_mask.len() - k,
            {
                loss_mask.push(window.loss_mask[k]);
                k = k + 1;
                assert(loss_mask@ =~= start_mask + window.loss_mask@.take(k as int));
            }
            assert(window.loss_mask@.take(k as int) =~= window.loss_mask@);
            b = b + 1;
        }
        assert(rows.take(b as int) =~= rows);
        ActionBatch { inputs, targets, loss_mask }
    }
}

/// Number of `true` entries of `mask`.
pub open spec fn true_count(mask: Seq<bool>) -> nat
    decreases mask.len(),
{
    if mask.len() == 0 {
        0
    } else {
        true_count(mask.drop_last()) + if mask.last() {
            1nat
        } else {
            0nat
        }
    }
}

/// Number of masked (predicting) positions over all `windows`.
pub open spec fn masked_positions(windows: Seq<WindowModel>) -> nat
    decreases windows.len(),
{
    if windows.len() == 0 {
        0
    } else {
        true_count(windows[0].loss_mask) + masked_positions(windows.skip(1))
    }
}

proof fn lemma_true_count_prefix_mask(len: nat, predictions: nat)
    requires
        predictions <= len,
    ensures
        true_count(Seq::new(len, |i: int| i < predictions)) == predictions,
    decreases len,
{
    if len > 0 {
        if predictions == len {
            lemma_true_count_prefix_mask((len - 1) as nat, (len - 1) as nat);
            assert(Seq::new(len, |i: int| i < predictions).drop_last() =~= Seq::new(
                (len - 1) as nat,
                |i: int| i < (len - 1) as nat,
            ));
        } else {
            lemma_true_count_prefix_mask((len - 1) as nat, predictions);
            assert(Seq::new(len, |i: int| i < predictions).drop_last() =~= Seq::new(
                (len - 1) as nat,
                |i: int| i < predictions,
            ));
        }
    }
}

proof fn lemma_windows_from_masked(sequence: Seq<u32>, start: int, seq_len: nat, pad: u32)
    requires
        seq_len > 0,
        0 <= start,
        start + 1 < sequence.len(),
    ensures
        masked_positions(windows_from(sequence, start, seq_len, pad)) == sequence.len() - 1 - start,
    decreases sequence.len() - start,
{
    let window = window_at(sequence, start, seq_len, pad);
    let end = if start + seq_len + 1 < sequence.len() {
        start + seq_len + 1
    } else {
        sequence.len() as int
    };
    let predictions = (end - start - 1) as nat;
    lemma_true_count_prefix_mask(seq_len, predictions);
    let all = windows_from(sequence, start, seq_len, pad);
    assert(all[0] == window);
    assert(true_count(all[0].loss_mask) == predictions);
    if start + seq_len + 1 >= sequence.len() {
        assert(all.skip(1) =~= Seq::<WindowModel>::empty());
        assert(masked_positions(all.skip(1)) == 0);
    } else {
        lemma_windows_from_masked(sequence, start + seq_len, seq_len, pad);
        assert(all.skip(1) =~= windows_from(sequence, start + seq_len, seq_len, pad));
    }
}

/// Cutting a sequence into windows predicts each of its transitions once in
/// total: the windows of a sequence of `n >= 1` IDs have `n - 1` masked
/// positions.
pub proof fn lemma_windows_cover_transitions(sequence: Seq<u32>, seq_len: nat, pad: u32)
    requires
        seq_len > 0,
        sequence.len() >= 1,
    ensures
        masked_positions(windows_from(sequence, 0, seq_len, pad)) == sequence.len() - 1,
{
    if sequence.len() >= 2 {
        lemma_windows_from_masked(sequence, 0, seq_len, pad);
    }
}

/// Every window has `seq_len` inputs, targets and mask entries; at a masked
/// position `k` the input is `sequence[start + k]` and the target is the ID
/// right after it, and unmasked positions hold padding.
pub proof fn lemma_window_shape(sequence: Seq<u32>, start: int, seq_len: nat, pad: u32)
    requires
        0 <= start,
        start + 1 < sequence.len(),
    ensures
        ({
            let window = window_at(sequence, start, seq_len, pad);
            &&& window.inputs.len() == seq_len
            &&& window.targets.len() == seq_len
            &&& window.loss_mask.len() == seq_len
            &&& forall|k: int|
                0 <= k < seq_len ==> (#[trigger] window.loss_mask[k] ==> window.inputs[k]
                    == sequence[start + k] && window.targets[k] == sequence[start + k + 1]) && (
                !window.loss_mask[k] ==> window.inputs[k] == pad && window.targets[k] == pad)
        }),
{
}


/// The entries `lo <= i < hi` of a mask of `len` entries are `hi - lo` in
/// number.
proof fn lemma_true_count_range(len: nat, lo: int, hi: int)
    requires
        0 <= lo <= hi <= len,
    ensures
        true_count(Seq::new(len, |i: int| lo <= i && i < hi)) == hi - lo,
    decreases len,
{
    if len > 0 {
        let mask = Seq::new(len, |i: int| lo <= i && i < hi);
        if hi == len {
            if lo == len {
                lemma_true_count_range((len - 1) as nat, lo - 1, hi - 1);
                assert(lo - 1 >= 0 || lo == 0);
                if lo == 0 {
                    assert(mask.drop_last() =~= Seq::new((len - 1) as nat, |i: int| 0 <= i && i < 0));
                    lemma_true_count_range((len - 1) as nat, 0, 0);
                } else {
                    assert(mask.drop_last() =~= Seq::new(
                        (len - 1) as nat,
                        |i: int| lo - 1 <= i && i < hi - 1,
                    ));
                }
            } else {
                lemma_true_count_range((len - 1) as nat, lo, hi - 1);
                assert(mask.drop_last() =~= Seq::new(
                    (len - 1) as nat,
                    |i: int| lo <= i && i < hi - 1,
                ));
            }
        } else {
            lemma_true_count_range((len - 1) as nat, lo, hi);
            assert(mask.drop_last() =~= Seq::new((len - 1) as nat, |i: int| lo <= i && i < hi));
        }
    }
}

/// Largest of `a` and `b`.
pub open spec fn larger(a: int, b: int) -> int {
    if a < b {
        b
    } else {
        a
    }
}

proof fn lemma_windows_counting_masked(
    sequence: Seq<u32>,
    start: int,
    seq_len: nat,
    pad: u32,
    first_target: int,
)
    requires
        seq_len > 0,
        0 <= start,
        start + 1 < sequence.len(),
        first_target <= sequence.len(),
    ensures
        masked_positions(windows_counting_from(sequence, start, seq_len, pad, first_target))
            == sequence.len() - larger(start + 1, first_target),
    decreases sequence.len() - start,
{
    let window = window_at(sequence, start, seq_len, pad);
    let end = if start + seq_len + 1 < sequence.len() {
        start + seq_len + 1
    } else {
        sequence.len() as int
    };
    let predictions = end - start - 1;
    let lo = if first_target - start - 1 <= 0 {
        0
    } else if first_target - start - 1 >= predictions {
        predictions
    } else {
        first_target - start - 1
    };
    let masked = masked_before(window, start, first_target);
    assert(masked.loss_mask =~= Seq::new(seq_len, |i: int| lo <= i && i < predictions));
    lemma_true_count_range(seq_len, lo, predictions);
    let all = windows_counting_from(sequence, start, seq_len, pad, first_target);
    assert(all[0] == masked);
    assert(true_count(all[0].loss_mask) == predictions - lo);
    if start + seq_len + 1 >= sequence.len() {
        assert(all.skip(1) =~= Seq::<WindowModel>::empty());
        assert(masked_positions(all.skip(1)) == 0);
    } else {
        lemma_windows_counting_masked(sequence, start + seq_len, seq_len, pad, first_target);
        assert(all.skip(1) =~= windows_counting_from(
            sequence,
            start + seq_len,
            seq_len,
            pad,
            first_target,
        ));
    }
}

/// The windows of a chat pair count each response ID once as a target; when
/// the prompt is empty the first response ID has nothing before it and is
/// not predicted.
pub proof fn lemma_chat_windows_count_responses(
    prompt: Seq<u32>,
    response: Seq<u32>,
    seq_len: nat,
    pad: u32,
)
    requires
        seq_len > 0,
    ensures
        masked_positions(
            windows_counting_from(prompt + response, 0, seq_len, pad, prompt.len() as int),
        ) == if prompt.len() == 0 && response.len() > 0 {
            response.len() - 1
        } else {
            response.len() as int
        },
{
    let sequence = prompt + response;
    if sequence.len() >= 2 {
        lemma_windows_counting_masked(sequence, 0, seq_len, pad, prompt.len() as int);
    } else {
        assert(windows_counting_from(sequence, 0, seq_len, pad, prompt.len() as int) =~= Seq::<
            WindowModel,
        >::empty());
    }
}


/// Number of response IDs a chat pair has as targets: all of them, but the
/// first when the prompt is empty, as nothing comes before it.
pub open spec fn response_targets(prompt: Seq<u32>, response: Seq<u32>) -> nat {
    if prompt.len() == 0 && response.len() > 0 {
        (response.len() - 1) as nat
    } else {
        response.len()
    }
}

/// Sum of [`response_targets`] over chat `pairs`.
pub open spec fn total_response_targets(pairs: Seq<(Seq<u32>, Seq<u32>)>) -> nat
    decreases pairs.len(),
{
    if pairs.len() == 0 {
        0
    } else {
        total_response_targets(pairs.drop_last()) + response_targets(
            pairs.last().0,
            pairs.last().1,
        )
    }
}

/// Masked positions add up over consecutive runs of windows.
proof fn lemma_masked_positions_concat(first: Seq<WindowModel>, second: Seq<WindowModel>)
    ensures
        masked_positions(first + second) == masked_positions(first) + masked_positions(second),
    decreases first.len(),
{
    if first.len() == 0 {
        assert(first + second =~= second);
    } else {
        assert((first + second)[0] == first[0]);
        assert((first + second).skip(1) =~= first.skip(1) + second);
        lemma_masked_positions_concat(first.skip(1), second);
    }
}

/// The windows of chat `pairs` count, pair by pair, exactly the response IDs
/// of that pair as targets: their number of masked positions is the sum of
/// the pairs' [`response_targets`].
pub proof fn lemma_chat_windows_count(pairs: Seq<(Seq<u32>, Seq<u32>)>, seq_len: nat, pad: u32)
    requires
        seq_len > 0,
    ensures
        masked_positions(chat_windows(pairs, seq_len, pad)) == total_response_targets(pairs),
    decreases pairs.len(),
{
    if pairs.len() > 0 {
        let last = pairs.last();
        lemma_chat_windows_count(pairs.drop_last(), seq_len, pad);
        lemma_chat_windows_count_responses(last.0, last.1, seq_len, pad);
        lemma_masked_positions_concat(
            chat_windows(pairs.drop_last(), seq_len, pad),
            windows_counting_from(last.0 + last.1, 0, seq_len, pad, last.0.len() as int),
        );
    } else {
        assert(chat_windows(pairs, seq_len, pad) =~= Seq::<WindowModel>::empty());
    }
}

} // verus!
