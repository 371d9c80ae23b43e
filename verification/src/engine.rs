use crate::config::MultiscreenConfig;
use crate::error::{Error, Result};
use crate::screen::ScreenModel;
use crate::layout::{planned_screens, reports_fault, tile_total, LayoutFault, LayoutModel, ScreenLayout};
use std::collections::{BTreeMap, HashMap};
use vstd::prelude::*;
use vstd::string::StringExecFns;

verus! {

// =====================================================================
// Counting model
// =====================================================================

/// How often `key` was counted in `counts`; absent keys count zero.
pub open spec fn count_of(counts: Map<u32, usize>, key: u32) -> int {
    if counts.contains_key(key) {
        counts[key] as int
    } else {
        0
    }
}

/// `counts` with one more occurrence of `key`.
pub open spec fn bump(counts: Map<u32, usize>, key: u32) -> Map<u32, usize> {
    counts.insert(key, (count_of(counts, key) + 1) as usize)
}

/// `counts` with one more occurrence of every token of `tokens`.
pub open spec fn bump_all(counts: Map<u32, usize>, tokens: Seq<u32>) -> Map<u32, usize>
    decreases tokens.len(),
{
    if tokens.len() == 0 {
        counts
    } else {
        bump(bump_all(counts, tokens.drop_last()), tokens.last())
    }
}

/// Number of positions of `tokens` that hold `token`.
pub open spec fn occurrences(tokens: Seq<u32>, token: u32) -> nat
    decreases tokens.len(),
{
    if tokens.len() == 0 {
        0
    } else {
        occurrences(tokens.drop_last(), token) + if tokens.last() == token {
            1nat
        } else {
            0nat
        }
    }
}

/// The counted successors of `from` in a transition table.
pub open spec fn successors(table: Map<u32, Map<u32, usize>>, from: u32) -> Map<u32, usize> {
    if table.contains_key(from) {
        table[from]
    } else {
        Map::empty()
    }
}

/// `table` with one more `from -> to` transition.
pub open spec fn bump_pair(table: Map<u32, Map<u32, usize>>, from: u32, to: u32) -> Map<
    u32,
    Map<u32, usize>,
> {
    table.insert(from, bump(successors(table, from), to))
}

/// `table` with one more transition for every pair of neighbouring tokens.
pub open spec fn bump_pairs(table: Map<u32, Map<u32, usize>>, tokens: Seq<u32>) -> Map<
    u32,
    Map<u32, usize>,
>
    decreases tokens.len(),
{
    if tokens.len() < 2 {
        table
    } else {
        bump_pair(
            bump_pairs(table, tokens.drop_last()),
            tokens[tokens.len() - 2],
            tokens.last(),
        )
    }
}

/// Number of positions `i` with `tokens[i] == from` and `tokens[i + 1] == to`.
pub open spec fn pair_occurrences(tokens: Seq<u32>, from: u32, to: u32) -> nat
    decreases tokens.len(),
{
    if tokens.len() < 2 {
        0
    } else {
        pair_occurrences(tokens.drop_last(), from, to) + if tokens[tokens.len() - 2] == from
            && tokens.last() == to {
            1nat
        } else {
            0nat
        }
    }
}

/// Whether `key` is the most frequent key of `counts`, the smallest key
/// winning among equally frequent ones.
pub open spec fn is_most_frequent(counts: Map<u32, usize>, key: u32) -> bool {
    &&& counts.contains_key(key)
    &&& forall|other: u32|
        #[trigger] counts.contains_key(other) ==> counts[other] < counts[key] || (counts[other]
            == counts[key] && key <= other)
}

/// The most frequent key of `counts` (smallest key on ties), if any.
pub open spec fn most_frequent(counts: Map<u32, usize>) -> Option<u32> {
    if exists|key: u32| is_most_frequent(counts, key) {
        Some(choose|key: u32| is_most_frequent(counts, key))
    } else {
        None
    }
}

/// At most one key is the most frequent.
pub proof fn lemma_most_frequent_unique(counts: Map<u32, usize>, a: u32, b: u32)
    requires
        is_most_frequent(counts, a),
        is_most_frequent(counts, b),
    ensures
        a == b,
{
    assert(counts.contains_key(b));
    assert(counts.contains_key(a));
}

/// Counting every token of `tokens` adds its number of occurrences.
pub proof fn lemma_bump_all_count(counts: Map<u32, usize>, tokens: Seq<u32>, token: u32)
    requires
        count_of(counts, token) + occurrences(tokens, token) <= usize::MAX,
    ensures
        count_of(bump_all(counts, tokens), token) == count_of(counts, token) + occurrences(
            tokens,
            token,
        ),
        bump_all(counts, tokens).contains_key(token) <==> counts.contains_key(token) || occurrences(
            tokens,
            token,
        ) > 0,
    decreases tokens.len(),
{
    if tokens.len() > 0 {
        lemma_bump_all_count(counts, tokens.drop_last(), token);
    }
}

/// A prefix holds no more occurrences than the whole sequence.
pub proof fn lemma_occurrences_prefix(tokens: Seq<u32>, n: int, token: u32)
    requires
        0 <= n <= tokens.len(),
    ensures
        occurrences(tokens.take(n), token) <= occurrences(tokens, token),
    decreases tokens.len() - n,
{
    if n < tokens.len() {
        lemma_occurrences_prefix(tokens, n + 1, token);
        assert(tokens.take(n + 1).drop_last() =~= tokens.take(n));
    } else {
        assert(tokens.take(n) =~= tokens);
    }
}

/// Counting every neighbouring pair of `tokens` adds its number of occurrences.
pub proof fn lemma_bump_pairs_count(
    table: Map<u32, Map<u32, usize>>,
    tokens: Seq<u32>,
    from: u32,
    to: u32,
)
    requires
        count_of(successors(table, from), to) + pair_occurrences(tokens, from, to) <= usize::MAX,
    ensures
        count_of(successors(bump_pairs(table, tokens), from), to) == count_of(
            successors(table, from),
            to,
        ) + pair_occurrences(tokens, from, to),
        successors(bump_pairs(table, tokens), from).contains_key(to) <==> successors(
            table,
            from,
        ).contains_key(to) || pair_occurrences(tokens, from, to) > 0,
    decreases tokens.len(),
{
    if tokens.len() >= 2 {
        lemma_bump_pairs_count(table, tokens.drop_last(), from, to);
    }
}

/// A prefix holds no more neighbouring pairs than the whole sequence.
pub proof fn lemma_pair_occurrences_prefix(tokens: Seq<u32>, n: int, from: u32, to: u32)
    requires
        0 <= n <= tokens.len(),
    ensures
        pair_occurrences(tokens.take(n), from, to) <= pair_occurrences(tokens, from, to),
    decreases tokens.len() - n,
{
    if n < tokens.len() {
        lemma_pair_occurrences_prefix(tokens, n + 1, from, to);
        let longer = tokens.take(n + 1);
        assert(longer.drop_last() =~= tokens.take(n));
    } else {
        assert(tokens.take(n) =~= tokens);
    }
}

// =====================================================================
// Screening state
// =====================================================================

/// Summary returned after training.
#[derive(Clone, Copy, Debug, PartialEq, Eq, Structural)]
pub struct TrainReport {
    pub training_sequence_count: usize,
    pub training_token_count: usize,
    pub observed_vocab_size: usize,
    pub screen_layout_count: usize,
    pub screening_tile_count: usize,
}

/// Abstract content of a [`ScreeningState`].
pub struct StateModel {
    pub observed_token_counts: Map<u32, usize>,
    pub next_token_counts: Map<u32, Map<u32, usize>>,
    pub training_sequence_count: usize,
    pub training_token_count: usize,
    pub screen_layout_count: usize,
    pub screening_tile_count: usize,
}

/// The state before anything was observed.
pub open spec fn empty_state() -> StateModel {
    StateModel {
        observed_token_counts: Map::empty(),
        next_token_counts: Map::empty(),
        training_sequence_count: 0,
        training_token_count: 0,
        screen_layout_count: 0,
        screening_tile_count: 0,
    }
}

/// `state` after observing `tokens` laid out in `screens` screens holding
/// `tiles` tiles.
pub open spec fn observed(state: StateModel, tokens: Seq<u32>, screens: nat, tiles: nat) -> StateModel {
    StateModel {
        observed_token_counts: bump_all(state.observed_token_counts, tokens),
        next_token_counts: bump_pairs(state.next_token_counts, tokens),
        training_sequence_count: (state.training_sequence_count + 1) as usize,
        training_token_count: (state.training_token_count + tokens.len()) as usize,
        screen_layout_count: (state.screen_layout_count + screens) as usize,
        screening_tile_count: (state.screening_tile_count + tiles) as usize,
    }
}

/// Whether observing `tokens` in `screens` screens holding `tiles` tiles keeps
/// every counter of `state` inside `usize`.
pub open spec fn observation_fits(
    state: StateModel,
    tokens: Seq<u32>,
    screens: nat,
    tiles: nat,
) -> bool {
    &&& state.training_sequence_count + 1 <= usize::MAX
    &&& state.training_token_count + tokens.len() <= usize::MAX
    &&& state.screen_layout_count + screens <= usize::MAX
    &&& state.screening_tile_count + tiles <= usize::MAX
    &&& forall|token: u32|
        count_of(state.observed_token_counts, token) + #[trigger] occurrences(tokens, token)
            <= usize::MAX
    &&& forall|from: u32, to: u32|
        count_of(successors(state.next_token_counts, from), to) + #[trigger] pair_occurrences(
            tokens,
            from,
            to,
        ) <= usize::MAX
}

/// The report describing `state`.
pub open spec fn report_of(state: StateModel) -> TrainReport {
    TrainReport {
        training_sequence_count: state.training_sequence_count,
        training_token_count: state.training_token_count,
        observed_vocab_size: state.observed_token_counts.len() as usize,
        screen_layout_count: state.screen_layout_count,
        screening_tile_count: state.screening_tile_count,
    }
}

/// The token predicted after `token`: its most frequent successor.
pub open spec fn predicted_next(state: StateModel, token: u32) -> Option<u32> {
    most_frequent(successors(state.next_token_counts, token))
}

/// Learned transition state of the screening engine.
#[derive(Debug)]
pub struct ScreeningState {
    pub observed_token_counts: BTreeMap<u32, usize>,
    pub next_token_counts: HashMap<u32, BTreeMap<u32, usize>>,
    pub training_sequence_count: usize,
    pub training_token_count: usize,
    pub screen_layout_count: usize,
    pub screening_tile_count: usize,
}

/// Abstract content of a transition table.
pub open spec fn table_view(table: HashMap<u32, BTreeMap<u32, usize>>) -> Map<
    u32,
    Map<u32, usize>,
> {
    table@.map_values(|counts: BTreeMap<u32, usize>| counts@)
}

impl View for ScreeningState {
    type V = StateModel;

    open spec fn view(&self) -> StateModel {
        StateModel {
            observed_token_counts: self.observed_token_counts@,
            next_token_counts: table_view(self.next_token_counts),
            training_sequence_count: self.training_sequence_count,
            training_token_count: self.training_token_count,
            screen_layout_count: self.screen_layout_count,
            screening_tile_count: self.screening_tile_count,
        }
    }
}

impl Clone for ScreeningState {
    fn clone(&self) -> (copy: Self)
        ensures
            copy@ == self@,
    {
        ScreeningState {
            observed_token_counts: self.observed_token_counts.clone(),
            next_token_counts: self.next_token_counts.clone(),
            training_sequence_count: self.training_sequence_count,
            training_token_count: self.training_token_count,
            screen_layout_count: self.screen_layout_count,
            screening_tile_count: self.screening_tile_count,
        }
    }
}

impl Default for ScreeningState {
    fn default() -> (state: Self)
        ensures
            state@ == empty_state(),
    {
        let state = ScreeningState {
            observed_token_counts: BTreeMap::new(),
            next_token_counts: HashMap::new(),
            training_sequence_count: 0,
            training_token_count: 0,
            screen_layout_count: 0,
            screening_tile_count: 0,
        };
        assert(table_view(state.next_token_counts) =~= Map::empty());
        state
    }
}

impl ScreeningState {
    /// Forgets everything observed so far.
    pub fn clear(&mut self)
        ensures
            final(self)@ == empty_state(),
    {
        *self = Self::default();
    }

    /// Counts the tokens and neighbouring token pairs of one training
    /// sequence, together with the size of its layout.
    pub fn observe_token_sequence(&mut self, tokens: &[u32], layout: &ScreenLayout)
        requires
            observation_fits(
                old(self)@,
                tokens@,
                layout@.screens.len(),
                tile_total(layout@.screens),
            ),
        ensures
            final(self)@ == observed(
                old(self)@,
                tokens@,
                layout@.screens.len(),
                tile_total(layout@.screens),
            ),
    {
        let ghost start = self@;
        self.training_sequence_count = self.training_sequence_count + 1;
        self.training_token_count = self.training_token_count + tokens.len();
        let screens = layout.screens();
        assert(screens@.len() == layout@.screens.len());
        self.screen_layout_count = self.screen_layout_count + screens.len();
        self.screening_tile_count = self.screening_tile_count + layout.screening_tile_count();
        let ghost counters = (
            self.training_sequence_count,
            self.training_token_count,
            self.screen_layout_count,
            self.screening_tile_count,
        );

        let mut i: usize = 0;
        while i < tokens.len()
            invariant
                i <= tokens.len(),
                observation_fits(
                    start,
                    tokens@,
                    layout@.screens.len(),
                    tile_total(layout@.screens),
                ),
                self.observed_token_counts@ == bump_all(
                    start.observed_token_counts,
                    tokens@.take(i as int),
                ),
                table_view(self.next_token_counts) == start.next_token_counts,
                self.training_sequence_count == counters.0,
                self.training_token_count == counters.1,
                self.screen_layout_count == counters.2,
                self.screening_tile_count == counters.3,
            decreases tokens.len() - i,
        {
            let token = tokens[i];
            proof {
                let prefix = tokens@.take(i as int);
                assert(occurrences(tokens@, token) <= usize::MAX);
                lemma_occurrences_prefix(tokens@, i + 1, token);
                assert(tokens@.take(i + 1).drop_last() =~= prefix);
                lemma_bump_all_count(start.observed_token_counts, prefix, token);
            }
            bump_count(&mut self.observed_token_counts, token);
            i = i + 1;
        }
        assert(tokens@.take(i as int) =~= tokens@);

        if tokens.len() > 0 {
            let mut j: usize = 0;
            assert(bump_pairs(start.next_token_counts, tokens@.take(1)) == start.next_token_counts);
            while j + 1 < tokens.len()
                invariant
                    j < tokens.len(),
                    observation_fits(
                        start,
                        tokens@,
                        layout@.screens.len(),
                        tile_total(layout@.screens),
                    ),
                    self.observed_token_counts@ == bump_all(start.observed_token_counts, tokens@),
                    table_view(self.next_token_counts) == bump_pairs(
                        start.next_token_counts,
                        tokens@.take(j + 1),
                    ),
                    self.training_sequence_count == counters.0,
                    self.training_token_count == counters.1,
                    self.screen_layout_count == counters.2,
                    self.screening_tile_count == counters.3,
                decreases tokens.len() - j,
            {
                let from = tokens[j];
                let to = tokens[j + 1];
                let ghost before = table_view(self.next_token_counts);
                proof {
                    let prefix = tokens@.take(j + 1);
                    let longer = tokens@.take(j + 2);
                    assert(longer.drop_last() =~= prefix);
                    assert(longer[longer.len() - 2] == from);
                    assert(longer.last() == to);
                    assert(pair_occurrences(tokens@, from, to) <= usize::MAX);
                    lemma_pair_occurrences_prefix(tokens@, j + 2, from, to);
                    lemma_bump_pairs_count(start.next_token_counts, prefix, from, to);
                }
                let mut successor_counts = match self.next_token_counts.remove(&from) {
                    Some(counts) => counts,
                    None => BTreeMap::new(),
                };
                assert(successor_counts@ == successors(before, from));
                bump_count(&mut successor_counts, to);
                self.next_token_counts.insert(from, successor_counts);
                proof {
                    assert(table_view(self.next_token_counts) =~= bump_pair(before, from, to));
                    assert(tokens@.take(j + 2).drop_last() =~= tokens@.take(j + 1));
                }
                j = j + 1;
            }
            assert(tokens@.take(j + 1) =~= tokens@);
        }
    }

    /// Summary of what was observed.
    pub fn report(&self) -> (report: TrainReport)
        ensures
            report == report_of(self@),
    {
        TrainReport {
            training_sequence_count: self.training_sequence_count,
            training_token_count: self.training_token_count,
            observed_vocab_size: self.observed_token_counts.len(),
            screen_layout_count: self.screen_layout_count,
            screening_tile_count: self.screening_tile_count,
        }
    }

    /// The most frequent successor of `token`, the smallest token winning ties.
    pub fn predict_next_token(&self, token: u32) -> (next: Option<u32>)
        ensures
            next == predicted_next(self@, token),
            next is None <==> successors(self@.next_token_counts, token).is_empty(),
    {
        match self.next_token_counts.get(&token) {
            Some(counts) => {
                assert(counts@ == successors(self@.next_token_counts, token));
                most_frequent_key(counts)
            },
            None => {
                let empty: BTreeMap<u32, usize> = BTreeMap::new();
                assert(successors(self@.next_token_counts, token) == empty@);
                most_frequent_key(&empty)
            },
        }
    }

    /// The most frequently observed token, the smallest token winning ties.
    pub fn fallback_token(&self) -> (token: Option<u32>)
        ensures
            token == most_frequent(self@.observed_token_counts),
            token is None <==> self@.observed_token_counts.is_empty(),
    {
        most_frequent_key(&self.observed_token_counts)
    }
}

/// Adds one to the count of `key`.
fn bump_count(counts: &mut BTreeMap<u32, usize>, key: u32)
    requires
        count_of(old(counts)@, key) + 1 <= usize::MAX,
    ensures
        final(counts)@ == bump(old(counts)@, key),
{
    let current = match counts.get(&key) {
        Some(count) => *count,
        None => 0,
    };
    counts.insert(key, current + 1);
}

/// Finds the most frequent key of `counts`, the smallest key winning ties.
fn most_frequent_key(counts: &BTreeMap<u32, usize>) -> (best: Option<u32>)
    ensures
        best == most_frequent(counts@),
        best is None <==> counts@.is_empty(),
{
    let mut best: Option<(u32, usize)> = None;
    for entry in it: counts.iter()
        invariant
            best matches Some(b) ==> {
                &&& counts@.contains_key(b.0)
                &&& counts@[b.0] == b.1
            },
            best is None <==> it.index() == 0,
            forall|i: int|
                #![trigger it.seq()[i]]
                0 <= i < it.index() ==> {
                    let (key, count) = it.seq()[i];
                    best matches Some(b) && (*count < b.1 || (*count == b.1 && b.0 <= *key))
                },
    {
        let (key, count) = entry;
        let better = match best {
            None => true,
            Some((best_key, best_count)) => *count > best_count || (*count == best_count && *key
                < best_key),
        };
        if better {
            best = Some((*key, *count));
        }
    }
    match best {
        Some((key, _)) => {
            assert(is_most_frequent(counts@, key));
            proof {
                let chosen = choose|k: u32| is_most_frequent(counts@, k);
                lemma_most_frequent_unique(counts@, key, chosen);
            }
            Some(key)
        },
        None => {
            assert(counts@.is_empty());
            None
        },
    }
}

// =====================================================================
// Training input and engine
// =====================================================================

/// User-provided training input.
#[derive(Clone, Debug, PartialEq, Eq)]
pub enum TrainInput {
    TokenSequences(Vec<Vec<u32>>),
}

/// The token sequences of a training input.
pub open spec fn input_sequences(input: TrainInput) -> Seq<Seq<u32>> {
    match input {
        TrainInput::TokenSequences(sequences) => sequences@.map_values(|s: Vec<u32>| s@),
    }
}

impl TrainInput {
    pub fn from_token_sequences(token_sequences: Vec<Vec<u32>>) -> (input: Self)
        ensures
            input == TrainInput::TokenSequences(token_sequences),
    {
        TrainInput::TokenSequences(token_sequences)
    }

    /// Older name of [`Self::from_token_sequences`].
    pub fn from_token_ids(token_sequences: Vec<Vec<u32>>) -> (input: Self)
        ensures
            input == TrainInput::TokenSequences(token_sequences),
    {
        Self::from_token_sequences(token_sequences)
    }

    pub fn is_empty(&self) -> (empty: bool)
        ensures
            empty == (input_sequences(*self).len() == 0),
    {
        match self {
            TrainInput::TokenSequences(token_sequences) => token_sequences.len() == 0,
        }
    }
}

/// Training from scratch on `sequences`: the final state, or the state reached
/// when planning the layout of a sequence failed, with the fault.
pub open spec fn trained(config: MultiscreenConfig, sequences: Seq<Seq<u32>>) -> core::result::Result<
    StateModel,
    (StateModel, LayoutFault),
>
    decreases sequences.len(),
{
    if sequences.len() == 0 {
        Ok(empty_state())
    } else {
        match trained(config, sequences.drop_last()) {
            Err(stop) => Err(stop),
            Ok(state) => match planned_screens(config, sequences.last().len() as usize) {
                Err(fault) => Err((state, fault)),
                Ok(screens) => Ok(
                    observed(state, sequences.last(), screens.len(), tile_total(screens)),
                ),
            },
        }
    }
}

/// Whether no counter leaves `usize` while training from scratch on
/// `sequences`.
pub open spec fn training_fits(config: MultiscreenConfig, sequences: Seq<Seq<u32>>) -> bool
    decreases sequences.len(),
{
    if sequences.len() == 0 {
        true
    } else {
        &&& training_fits(config, sequences.drop_last())
        &&& match trained(config, sequences.drop_last()) {
            Err(_) => true,
            Ok(state) => match planned_screens(config, sequences.last().len() as usize) {
                Err(_) => true,
                Ok(screens) => observation_fits(
                    state,
                    sequences.last(),
                    screens.len(),
                    tile_total(screens),
                ),
            },
        }
    }
}

/// The output token for input `token`: its most frequent successor; without
/// a learned transition, `token` itself when the input fallback is enabled,
/// else the most frequent token overall.
pub open spec fn inferred_token(state: StateModel, config: MultiscreenConfig, token: u32) -> Option<
    u32,
> {
    match predicted_next(state, token) {
        Some(next) => Some(next),
        None => if config.inference.use_input_token_fallback {
            Some(token)
        } else {
            most_frequent(state.observed_token_counts)
        },
    }
}

/// How many input tokens inference turns into output tokens.
pub open spec fn output_limit(config: MultiscreenConfig, input_len: nat) -> nat {
    match config.inference.max_inference_tokens {
        Some(max) => if max < input_len {
            max as nat
        } else {
            input_len
        },
        None => input_len,
    }
}

/// The output tokens for `input`, or `None` when some token in the output
/// range has no output token.
pub open spec fn inferred_tokens(
    state: StateModel,
    config: MultiscreenConfig,
    input: Seq<u32>,
) -> Option<Seq<u32>> {
    let n = output_limit(config, input.len());
    if forall|i: int| 0 <= i < n ==> #[trigger] inferred_token(state, config, input[i]) is Some {
        Some(Seq::new(n, |i: int| inferred_token(state, config, input[i])->Some_0))
    } else {
        None
    }
}

/// Whether training an engine that was `before` on `input` may end as
/// `after` with `result`: the configuration stays, and the state and report
/// are those of training from scratch, up to the first sequence whose layout
/// cannot be planned, which is reported as a layout error.
pub open spec fn train_outcome(
    before: EngineModel,
    input: TrainInput,
    after: EngineModel,
    result: Result<TrainReport>,
) -> bool {
    &&& after.config == before.config
    &&& match trained(before.config, input_sequences(input)) {
        Ok(state) => result == Ok::<TrainReport, Error>(report_of(state)) && after.state == state,
        Err((state, fault)) => result matches Err(e) && reports_fault(e, fault) && after.state
            == state,
    }
}

/// Whether two training results agree: the same report, or layout errors
/// with the same message.
pub open spec fn same_training_result(a: Result<TrainReport>, b: Result<TrainReport>) -> bool {
    match (a, b) {
        (Ok(ra), Ok(rb)) => ra == rb,
        (Err(ea), Err(eb)) => ea is Layout && eb is Layout && ea.message() == eb.message(),
        _ => false,
    }
}

/// Output from token inference.
#[derive(Clone, Debug, PartialEq, Eq)]
pub struct InferenceOutput {
    pub output_token_ids: Vec<u32>,
    pub layout: ScreenLayout,
}

/// Abstract content of a [`MultiscreenEngine`].
pub struct EngineModel {
    pub config: MultiscreenConfig,
    pub state: StateModel,
}

/// Main user-facing engine.
#[derive(Debug)]
pub struct MultiscreenEngine {
    config: MultiscreenConfig,
    state: ScreeningState,
}

impl View for MultiscreenEngine {
    type V = EngineModel;

    closed spec fn view(&self) -> EngineModel {
        EngineModel { config: self.config, state: self.state@ }
    }
}

impl Clone for MultiscreenEngine {
    fn clone(&self) -> (copy: Self)
        ensures
            copy@ == self@,
    {
        proof {
            use_type_invariant(self);
        }
        MultiscreenEngine { config: self.config, state: self.state.clone() }
    }
}

impl MultiscreenEngine {
    #[verifier::type_invariant]
    closed spec fn config_is_valid(&self) -> bool {
        self.config.is_valid()
    }

    /// Creates a new engine with the given configuration.
    pub fn new(config: MultiscreenConfig) -> (result: Result<Self>)
        ensures
            match config.problem() {
                Some(problem) => result matches Err(e) && e is Config && e.message() == problem,
                None => result matches Ok(engine) && engine@.config == config && engine@.state
                    == empty_state(),
            },
    {
        config.validate()?;
        Ok(MultiscreenEngine { config, state: ScreeningState::default() })
    }

    /// Creates an engine from a configuration and a learned state, such as
    /// the two halves of a weights file.
    pub fn from_state(config: MultiscreenConfig, state: ScreeningState) -> (result: Result<Self>)
        ensures
            match config.problem() {
                Some(problem) => result matches Err(e) && e is Config && e.message() == problem,
                None => result matches Ok(engine) && engine@.config == config && engine@.state
                    == state@,
            },
    {
        config.validate()?;
        Ok(MultiscreenEngine { config, state })
    }

    /// Returns the active configuration, which is always valid.
    pub fn config(&self) -> (config: &MultiscreenConfig)
        ensures
            *config == self@.config,
            config.is_valid(),
    {
        proof {
            use_type_invariant(self);
        }
        &self.config
    }

    /// Returns the learned state.
    pub fn state(&self) -> (state: &ScreeningState)
        ensures
            state@ == self@.state,
    {
        &self.state
    }

    /// Trains the lightweight transition state from token IDs, starting from
    /// an empty state.
    pub fn train(&mut self, input: TrainInput) -> (result: Result<TrainReport>)
        requires
            training_fits(old(self)@.config, input_sequences(input)),
        ensures
            train_outcome(old(self)@, input, final(self)@, result),
    {
        proof {
            use_type_invariant(&*self);
        }
        let ghost config = self.config;
        let ghost all = input_sequences(input);
        let sequences = self.resolve_train_input(input)?;
        assert(sequences@.map_values(|s: Vec<u32>| s@) == all);
        let mut state = ScreeningState::default();
        state.clear();
        let mut i: usize = 0;
        while i < sequences.len()
            invariant
                self.config == config,
                config == old(self)@.config,
                all == input_sequences(input),
                config.is_valid(),
                all == sequences@.map_values(|s: Vec<u32>| s@),
                i <= sequences.len(),
                training_fits(config, all),
                trained(config, all.take(i as int)) == Ok::<
                    StateModel,
                    (StateModel, LayoutFault),
                >(state@),
            decreases sequences.len() - i,
        {
            let sequence = &sequences[i];
            proof {
                lemma_training_fits_prefix(config, all, i + 1);
                assert(all.take(i + 1).drop_last() =~= all.take(i as int));
                assert(all.take(i + 1).last() == sequence@);
                assert(sequence@.len() == sequence.len());
            }
            let layout = match ScreenLayout::build(&self.config, sequence.len()) {
                Ok(layout) => layout,
                Err(e) => {
                    proof {
                        lemma_trained_stops(config, all, i + 1);
                    }
                    self.state = state;
                    return Err(e);
                },
            };
            state.observe_token_sequence(sequence.as_slice(), &layout);
            i = i + 1;
        }
        assert(all.take(i as int) =~= all);
        self.state = state;
        Ok(self.state.report())
    }

    /// Runs deterministic token inference.
    pub fn infer_tokens(&self, input_ids: &[u32]) -> (result: Result<InferenceOutput>)
        ensures
            match planned_screens(self@.config, input_ids@.len() as usize) {
                Err(fault) => result matches Err(e) && reports_fault(e, fault),
                Ok(screens) => match inferred_tokens(self@.state, self@.config, input_ids@) {
                    Some(tokens) => result matches Ok(output) && output.output_token_ids@ == tokens
                        && output.layout@.sequence_len == input_ids@.len() && output.layout@.screens
                        == screens,
                    None => result matches Err(e) && e is Inference && e.message()
                        == "no trained transition, fallback token, or input fallback available"@,
                },
            },
    {
        proof {
            use_type_invariant(self);
        }
        let layout = ScreenLayout::build(&self.config, input_ids.len())?;
        let limit = match self.config.inference.max_inference_tokens {
            Some(max) => if max < input_ids.len() {
                max
            } else {
                input_ids.len()
            },
            None => input_ids.len(),
        };
        let fallback = self.state.fallback_token();
        let ghost state = self.state@;
        let ghost config = self.config;
        let mut output_token_ids: Vec<u32> = Vec::new();
        let mut i: usize = 0;
        while i < limit
            invariant
                state == self.state@,
                config == self.config,
                limit == output_limit(config, input_ids@.len()),
                limit <= input_ids.len(),
                fallback == most_frequent(state.observed_token_counts),
                layout@.sequence_len == input_ids@.len(),
                planned_screens(config, input_ids@.len() as usize) == Ok::<
                    Seq<ScreenModel>,
                    LayoutFault,
                >(layout@.screens),
                i <= limit,
                output_token_ids@.len() == i,
                forall|k: int|
                    0 <= k < i ==> inferred_token(state, config, input_ids@[k]) == Some(
                        #[trigger] output_token_ids@[k],
                    ),
            decreases limit - i,
        {
            let token = input_ids[i];
            let next = match self.state.predict_next_token(token) {
                Some(next) => next,
                None => if self.config.inference.use_input_token_fallback {
                    token
                } else {
                    match fallback {
                        Some(next) => next,
                        None => {
                            assert(inferred_token(state, config, input_ids@[i as int]) is None);
                            return Err(
                                Error::Inference(
                                    String::from_str(
                                        "no trained transition, fallback token, or input fallback available",
                                    ),
                                ),
                            );
                        },
                    }
                },
            };
            output_token_ids.push(next);
            i = i + 1;
        }
        proof {
            assert forall|k: int| 0 <= k < limit implies #[trigger] inferred_token(
                state,
                config,
                input_ids@[k],
            ) is Some by {
                assert(inferred_token(state, config, input_ids@[k]) == Some(output_token_ids@[k]));
            }
            assert(output_token_ids@ =~= Seq::new(
                limit as nat,
                |k: int| inferred_token(state, config, input_ids@[k])->Some_0,
            ));
        }
        Ok(InferenceOutput { output_token_ids, layout })
    }

    /// Installs a learned state that was saved under `file_config`, which
    /// must equal the active configuration.
    pub fn restore_state(&mut self, file_config: MultiscreenConfig, state: ScreeningState) -> (result:
        Result<TrainReport>)
        ensures
            final(self)@.config == old(self)@.config,
            file_config == old(self)@.config ==> result == Ok::<TrainReport, Error>(
                report_of(state@),
            ) && final(self)@.state == state@,
            file_config != old(self)@.config ==> (result matches Err(e)
                && e is WeightsConfigMismatch && e.message()
                == "the config embedded in the weights file does not match the engine's active config \u{2014} create a new engine with the correct config first, or use MultiscreenEngine::from_weights_file() to auto-detect the config"@)
                && final(self)@.state == old(self)@.state,
    {
        proof {
            use_type_invariant(&*self);
        }
        if file_config != self.config {
            return Err(
                Error::WeightsConfigMismatch(
                    String::from_str(
                        "the config embedded in the weights file does not match the engine's active config \u{2014} create a new engine with the correct config first, or use MultiscreenEngine::from_weights_file() to auto-detect the config",
                    ),
                ),
            );
        }
        self.state = state;
        Ok(self.state.report())
    }

    fn resolve_train_input(&self, input: TrainInput) -> (result: Result<Vec<Vec<u32>>>)
        ensures
            result matches Ok(sequences) && sequences@.map_values(|s: Vec<u32>| s@)
                == input_sequences(input),
    {
        match input {
            TrainInput::TokenSequences(sequences) => Ok(sequences),
        }
    }
}

/// Training on a prefix of the sequences stays within `usize` whenever
/// training on all of them does.
proof fn lemma_training_fits_prefix(config: MultiscreenConfig, sequences: Seq<Seq<u32>>, n: int)
    requires
        0 <= n <= sequences.len(),
        training_fits(config, sequences),
    ensures
        training_fits(config, sequences.take(n)),
        n > 0 ==> match trained(config, sequences.take(n - 1)) {
            Err(_) => true,
            Ok(state) => match planned_screens(config, sequences[n - 1].len() as usize) {
                Err(_) => true,
                Ok(screens) => observation_fits(
                    state,
                    sequences[n - 1],
                    screens.len(),
                    tile_total(screens),
                ),
            },
        },
    decreases sequences.len() - n,
{
    if n < sequences.len() {
        lemma_training_fits_prefix(config, sequences, n + 1);
        assert(sequences.take(n + 1).drop_last() =~= sequences.take(n));
        if n > 0 {
            assert(sequences.take(n).drop_last() =~= sequences.take(n - 1));
        }
    } else {
        assert(sequences.take(n) =~= sequences);
        if n > 0 {
            assert(sequences.drop_last() =~= sequences.take(n - 1));
        }
    }
    if n > 0 {
        let prefix = sequences.take(n);
        assert(prefix.drop_last() =~= sequences.take(n - 1));
        assert(prefix.last() == sequences[n - 1]);
        assert(training_fits(config, prefix));
        assert(prefix.len() > 0);
    }
}

/// Once planning the layout of a sequence fails, training stops there.
proof fn lemma_trained_stops(config: MultiscreenConfig, sequences: Seq<Seq<u32>>, n: int)
    requires
        0 < n <= sequences.len(),
        trained(config, sequences.take(n)) is Err,
    ensures
        trained(config, sequences) == trained(config, sequences.take(n)),
    decreases sequences.len() - n,
{
    if n < sequences.len() {
        assert(sequences.take(n + 1).drop_last() =~= sequences.take(n));
        lemma_trained_stops(config, sequences, n + 1);
    } else {
        assert(sequences.take(n) =~= sequences);
    }
}

/// Number of positions holding `token` over all `sequences`.
pub open spec fn total_occurrences(sequences: Seq<Seq<u32>>, token: u32) -> nat
    decreases sequences.len(),
{
    if sequences.len() == 0 {
        0
    } else {
        total_occurrences(sequences.drop_last(), token) + occurrences(sequences.last(), token)
    }
}

/// Number of neighbouring `from`, `to` pairs over all `sequences`.
pub open spec fn total_pair_occurrences(sequences: Seq<Seq<u32>>, from: u32, to: u32) -> nat
    decreases sequences.len(),
{
    if sequences.len() == 0 {
        0
    } else {
        total_pair_occurrences(sequences.drop_last(), from, to) + pair_occurrences(
            sequences.last(),
            from,
            to,
        )
    }
}

/// Number of tokens over all `sequences`.
pub open spec fn total_tokens(sequences: Seq<Seq<u32>>) -> nat
    decreases sequences.len(),
{
    if sequences.len() == 0 {
        0
    } else {
        total_tokens(sequences.drop_last()) + sequences.last().len()
    }
}

/// What training learns is exactly the statistics of its input: each
/// token's count is its number of occurrences over all sequences, each
/// `from -> to` count is the number of neighbouring `from`, `to` pairs, the
/// observed vocabulary is the set of tokens that occur, and the sequence and
/// token counters are the number of sequences and of tokens.
pub proof fn lemma_training_counts(
    config: MultiscreenConfig,
    sequences: Seq<Seq<u32>>,
    token: u32,
    from: u32,
    to: u32,
)
    requires
        config.is_valid(),
        training_fits(config, sequences),
    ensures
        trained(config, sequences) matches Ok(state) ==> {
            &&& count_of(state.observed_token_counts, token) == total_occurrences(sequences, token)
            &&& state.observed_token_counts.contains_key(token) <==> total_occurrences(
                sequences,
                token,
            ) > 0
            &&& count_of(successors(state.next_token_counts, from), to) == total_pair_occurrences(
                sequences,
                from,
                to,
            )
            &&& state.training_sequence_count == sequences.len()
            &&& state.training_token_count == total_tokens(sequences)
        },
    decreases sequences.len(),
{
    if sequences.len() > 0 {
        lemma_training_counts(config, sequences.drop_last(), token, from, to);
        if let Ok(before) = trained(config, sequences.drop_last()) {
            if let Ok(screens) = planned_screens(config, sequences.last().len() as usize) {
                lemma_bump_all_count(before.observed_token_counts, sequences.last(), token);
                lemma_bump_pairs_count(before.next_token_counts, sequences.last(), from, to);
            }
        }
    }
}

/// An engine that learned nothing answers each token with itself when the
/// input fallback is enabled: the output is the input cut to the output limit.
pub proof fn lemma_untrained_engine_echoes(config: MultiscreenConfig, input: Seq<u32>)
    requires
        config.inference.use_input_token_fallback,
    ensures
        inferred_tokens(empty_state(), config, input) == Some(
            input.take(output_limit(config, input.len()) as int),
        ),
{
    let n = output_limit(config, input.len());
    assert forall|i: int| 0 <= i < input.len() implies #[trigger] inferred_token(
        empty_state(),
        config,
        input[i],
    ) == Some(input[i]) by {
        assert(successors(empty_state().next_token_counts, input[i]) =~= Map::empty());
        assert(!exists|key: u32| is_most_frequent(Map::<u32, usize>::empty(), key));
    }
    assert(Seq::new(n, |i: int| inferred_token(empty_state(), config, input[i])->Some_0)
        =~= input.take(n as int));
}

/// Training replaces what was learned: two engines of one configuration,
/// whatever each had learned before, hold the same state after training on
/// the same input, and report the same.
pub proof fn lemma_training_replaces(
    a: EngineModel,
    b: EngineModel,
    input: TrainInput,
    a_after: EngineModel,
    b_after: EngineModel,
    a_result: Result<TrainReport>,
    b_result: Result<TrainReport>,
)
    requires
        a.config == b.config,
        train_outcome(a, input, a_after, a_result),
        train_outcome(b, input, b_after, b_result),
    ensures
        a_after == b_after,
        same_training_result(a_result, b_result),
{
}

/// Training twice on the same input ends where training once does, with the
/// same report.
pub proof fn lemma_training_twice(
    before: EngineModel,
    input: TrainInput,
    once: EngineModel,
    twice: EngineModel,
    first: Result<TrainReport>,
    second: Result<TrainReport>,
)
    requires
        train_outcome(before, input, once, first),
        train_outcome(once, input, twice, second),
    ensures
        twice == once,
        same_training_result(first, second),
{
    lemma_training_replaces(before, once, input, once, twice, first, second);
}

/// The state after observing `sequences`, each laid out as the layout of the
/// same position in `layouts`, one after the other from `state`.
pub open spec fn observed_all(
    state: StateModel,
    sequences: Seq<Seq<u32>>,
    layouts: Seq<LayoutModel>,
) -> StateModel
    decreases sequences.len(),
{
    if sequences.len() == 0 {
        state
    } else {
        observed(
            observed_all(state, sequences.drop_last(), layouts.drop_last()),
            sequences.last(),
            layouts.last().screens.len(),
            tile_total(layouts.last().screens),
        )
    }
}

/// Number of screens over all `layouts`.
pub open spec fn total_screens(layouts: Seq<LayoutModel>) -> nat
    decreases layouts.len(),
{
    if layouts.len() == 0 {
        0
    } else {
        total_screens(layouts.drop_last()) + layouts.last().screens.len()
    }
}

/// Number of tiles over all `layouts`.
pub open spec fn total_tiles(layouts: Seq<LayoutModel>) -> nat
    decreases layouts.len(),
{
    if layouts.len() == 0 {
        0
    } else {
        total_tiles(layouts.drop_last()) + tile_total(layouts.last().screens)
    }
}

/// The distinct tokens of `sequences`.
pub open spec fn distinct_tokens(sequences: Seq<Seq<u32>>) -> Set<u32> {
    Set::new(|token: u32| total_occurrences(sequences, token) > 0)
}

/// Counting `tokens` adds exactly the tokens of `tokens` to the counted keys.
proof fn lemma_bump_all_keys(counts: Map<u32, usize>, tokens: Seq<u32>)
    ensures
        bump_all(counts, tokens).dom() =~= Set::new(
            |token: u32| counts.contains_key(token) || occurrences(tokens, token) > 0,
        ),
    decreases tokens.len(),
{
    if tokens.len() > 0 {
        lemma_bump_all_keys(counts, tokens.drop_last());
    }
}

/// The report after observing `k` sequences from the empty state gives `k`
/// sequences, their summed lengths, the number of their distinct tokens, and
/// the summed screen and tile counts of their layouts.
pub proof fn lemma_observations_report(sequences: Seq<Seq<u32>>, layouts: Seq<LayoutModel>)
    requires
        sequences.len() == layouts.len(),
        sequences.len() <= usize::MAX,
        total_tokens(sequences) <= usize::MAX,
        total_screens(layouts) <= usize::MAX,
        total_tiles(layouts) <= usize::MAX,
    ensures
        report_of(observed_all(empty_state(), sequences, layouts)) == (TrainReport {
            training_sequence_count: sequences.len() as usize,
            training_token_count: total_tokens(sequences) as usize,
            observed_vocab_size: distinct_tokens(sequences).len() as usize,
            screen_layout_count: total_screens(layouts) as usize,
            screening_tile_count: total_tiles(layouts) as usize,
        }),
    decreases sequences.len(),
{
    let state = observed_all(empty_state(), sequences, layouts);
    lemma_observed_keys(sequences, layouts);
    if sequences.len() > 0 {
        lemma_observations_report(sequences.drop_last(), layouts.drop_last());
    }
    assert(state.observed_token_counts.dom() == distinct_tokens(sequences));
}

/// The counted tokens after observing `sequences` from the empty state are
/// their distinct tokens.
proof fn lemma_observed_keys(sequences: Seq<Seq<u32>>, layouts: Seq<LayoutModel>)
    ensures
        observed_all(empty_state(), sequences, layouts).observed_token_counts.dom()
            =~= distinct_tokens(sequences),
    decreases sequences.len(),
{
    if sequences.len() > 0 {
        let before = observed_all(empty_state(), sequences.drop_last(), layouts.drop_last());
        lemma_observed_keys(sequences.drop_last(), layouts.drop_last());
        lemma_bump_all_keys(before.observed_token_counts, sequences.last());
    } else {
        assert(Map::<u32, usize>::empty().dom() =~= Set::empty());
    }
}

/// The output of inference, when there is one, has one token per input token
/// up to the output limit, and each is that input token's answer.
pub proof fn lemma_inferred_tokens_shape(
    state: StateModel,
    config: MultiscreenConfig,
    input: Seq<u32>,
)
    ensures
        inferred_tokens(state, config, input) matches Some(tokens) ==> {
            &&& tokens.len() == output_limit(config, input.len())
            &&& tokens.len() <= input.len()
            &&& forall|i: int|
                0 <= i < tokens.len() ==> Some(#[trigger] tokens[i]) == inferred_token(
                    state,
                    config,
                    input[i],
                )
        },
{
}

} // verus!
