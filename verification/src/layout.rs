use crate::config::MultiscreenConfig;
use crate::error::{Error, Result};
use crate::screen::{Screen, ScreenModel};
use crate::tile::{ScreeningGridConfig, Tile};
use vstd::prelude::*;
use vstd::string::StringExecFns;

verus! {

/// Half-open token span `[start, end)`.
#[derive(Clone, Copy, Debug, PartialEq, Eq, Hash)]
pub struct TokenSpan {
    pub start: usize,
    pub end: usize,
}

impl TokenSpan {
    pub fn new(start: usize, end: usize) -> (result: Result<Self>)
        ensures
            start <= end ==> result == Ok::<TokenSpan, Error>(TokenSpan { start, end }),
            start > end ==> (result matches Err(e) && e is Layout && e.message()
                == "token span start must be <= end"@),
    {
        if start > end {
            return Err(Error::Layout(String::from_str("token span start must be <= end")));
        }
        Ok(TokenSpan { start, end })
    }

    /// Number of tokens in the span.
    pub fn len(self) -> (n: usize)
        requires
            self.start <= self.end,
        ensures
            n == self.end - self.start,
    {
        self.end - self.start
    }

    pub fn is_empty(self) -> (empty: bool)
        ensures
            empty == (self.start == self.end),
    {
        self.start == self.end
    }

    pub fn contains(self, index: usize) -> (inside: bool)
        ensures
            inside == (self.start <= index && index < self.end),
    {
        self.start <= index && index < self.end
    }
}

/// Why a layout could not be planned for a valid configuration.
#[derive(Clone, Copy, Debug, PartialEq, Eq)]
pub enum LayoutFault {
    /// Advancing a screen start by the screen stride left the `usize` range.
    ScreenStrideOverflow,
    /// Advancing a tile start by the tile stride left the `usize` range.
    TileStrideOverflow,
}

/// End of the window of `window_len` tokens that starts at `start`, cut at `end`.
pub open spec fn window_end(start: usize, end: usize, window_len: usize) -> usize {
    if start + window_len < end {
        (start + window_len) as usize
    } else {
        end
    }
}

/// Where the window after the one starting at `current` begins: one stride
/// further while that stays inside `[.., end)`, otherwise the start of the
/// final window that ends exactly at `end`, if that lies past `current`.
pub open spec fn next_start(current: usize, end: usize, window_len: usize, stride: usize) -> Option<
    usize,
> {
    if current + stride < end {
        Some((current + stride) as usize)
    } else if end - window_len > current {
        Some((end - window_len) as usize)
    } else {
        None
    }
}

/// The tile with position `count` in its screen.
pub open spec fn planned_tile(
    grid: ScreeningGridConfig,
    screen_index: usize,
    count: nat,
    start: usize,
    end: usize,
) -> Tile {
    Tile {
        index: count as usize,
        screen_index,
        layer_index: ((count / grid.head_count as nat) % grid.layer_count as nat) as usize,
        head_index: (count % grid.head_count as nat) as usize,
        span: TokenSpan { start, end },
    }
}

/// Puts `prefix` in front of a planned sequence, keeping a failure as it is.
pub open spec fn prepend<T>(prefix: Seq<T>, rest: core::result::Result<Seq<T>, LayoutFault>) -> core::result::Result<
    Seq<T>,
    LayoutFault,
> {
    match rest {
        Ok(items) => Ok(prefix + items),
        Err(fault) => Err(fault),
    }
}

/// The tiles of a screen span `[.., end)` from the tile starting at `start`
/// on, where `count` tiles were laid out before it.
pub open spec fn tile_plan(
    config: MultiscreenConfig,
    screen_index: usize,
    start: usize,
    end: usize,
    count: nat,
) -> core::result::Result<Seq<Tile>, LayoutFault>
    decreases end - start,
{
    let len = config.tiles.tokens_per_tile;
    let stride = config.tiles.tile_stride_tokens;
    if start >= end {
        Ok(Seq::empty())
    } else {
        let tile_end = window_end(start, end, len);
        let tile = planned_tile(config.tiles.screening_grid, screen_index, count, start, tile_end);
        if tile_end == end {
            Ok(seq![tile])
        } else if start + stride > usize::MAX {
            Err(LayoutFault::TileStrideOverflow)
        } else {
            match next_start(start, end, len, stride) {
                Some(next) => if next > start {
                    prepend(seq![tile], tile_plan(config, screen_index, next, end, count + 1))
                } else {
                    Ok(seq![tile])
                },
                None => Ok(seq![tile]),
            }
        }
    }
}

/// The screens of a sequence of `sequence_len` tokens from the screen starting
/// at `start` on, where `count` screens were laid out before it.
pub open spec fn screen_plan(
    config: MultiscreenConfig,
    start: usize,
    sequence_len: usize,
    count: nat,
) -> core::result::Result<Seq<ScreenModel>, LayoutFault>
    decreases sequence_len - start,
{
    let len = config.screens.tokens_per_screen;
    let stride = config.screens.screen_stride_tokens;
    if start >= sequence_len {
        Ok(Seq::empty())
    } else if config.screens.max_screen_count matches Some(max) && count >= max {
        Ok(Seq::empty())
    } else {
        let screen_end = window_end(start, sequence_len, len);
        match tile_plan(config, count as usize, start, screen_end, 0) {
            Err(fault) => Err(fault),
            Ok(tiles) => {
                let screen = ScreenModel {
                    index: count as usize,
                    span: TokenSpan { start, end: screen_end },
                    tiles,
                };
                if screen_end == sequence_len {
                    Ok(seq![screen])
                } else if start + stride > usize::MAX {
                    Err(LayoutFault::ScreenStrideOverflow)
                } else {
                    match next_start(start, sequence_len, len, stride) {
                        Some(next) => if next > start {
                            prepend(seq![screen], screen_plan(config, next, sequence_len, count + 1))
                        } else {
                            Ok(seq![screen])
                        },
                        None => Ok(seq![screen]),
                    }
                }
            },
        }
    }
}

/// The screens that a valid configuration lays over `sequence_len` tokens.
pub open spec fn planned_screens(config: MultiscreenConfig, sequence_len: usize) -> core::result::Result<
    Seq<ScreenModel>,
    LayoutFault,
> {
    screen_plan(config, 0, sequence_len, 0)
}

/// The message of the error reporting `fault`.
pub open spec fn fault_message(fault: LayoutFault) -> Seq<char> {
    match fault {
        LayoutFault::ScreenStrideOverflow => "screen"@ + " stride overflowed usize"@,
        LayoutFault::TileStrideOverflow => "tile"@ + " stride overflowed usize"@,
    }
}

/// Whether `error` is the layout error that reports `fault`.
pub open spec fn reports_fault(error: Error, fault: LayoutFault) -> bool {
    error is Layout && error.message() == fault_message(fault)
}

/// Total number of tiles over all `screens`.
pub open spec fn tile_total(screens: Seq<ScreenModel>) -> nat
    decreases screens.len(),
{
    if screens.len() == 0 {
        0
    } else {
        tile_total(screens.drop_last()) + screens.last().tiles.len()
    }
}

/// The tiles of all `screens`, screen after screen.
pub open spec fn all_tiles(screens: Seq<ScreenModel>) -> Seq<Tile>
    decreases screens.len(),
{
    if screens.len() == 0 {
        Seq::empty()
    } else {
        all_tiles(screens.drop_last()) + screens.last().tiles
    }
}

/// Abstract content of a [`ScreenLayout`].
pub struct LayoutModel {
    pub sequence_len: usize,
    pub screens: Seq<ScreenModel>,
}

/// Fully materialized screen and tile layout for a token sequence.
#[derive(Clone, Debug, PartialEq, Eq)]
pub struct ScreenLayout {
    sequence_len: usize,
    screens: Vec<Screen>,
}

impl View for ScreenLayout {
    type V = LayoutModel;

    closed spec fn view(&self) -> LayoutModel {
        LayoutModel {
            sequence_len: self.sequence_len,
            screens: self.screens@.map_values(|screen: Screen| screen@),
        }
    }
}

/// Whether `result` is what [`ScreenLayout::build`] returns for `config` and
/// `sequence_len`: a configuration error for an invalid configuration, the
/// planned screens when planning succeeds, and the layout error that reports
/// the planning fault otherwise.
pub open spec fn build_outcome(
    config: MultiscreenConfig,
    sequence_len: usize,
    result: Result<ScreenLayout>,
) -> bool {
    match config.problem() {
        Some(problem) => result matches Err(e) && e is Config && e.message() == problem,
        None => match planned_screens(config, sequence_len) {
            Ok(screens) => result matches Ok(layout) && layout@.sequence_len == sequence_len
                && layout@.screens == screens,
            Err(fault) => result matches Err(e) && reports_fault(e, fault),
        },
    }
}

impl ScreenLayout {
    /// Splits `sequence_len` tokens into screens and each screen into tiles.
    pub fn build(config: &MultiscreenConfig, sequence_len: usize) -> (result: Result<Self>)
        ensures
            build_outcome(*config, sequence_len, result),
    {
        config.validate()?;
        if sequence_len == 0 {
            let layout = ScreenLayout { sequence_len, screens: Vec::new() };
            assert(layout@.screens =~= Seq::<ScreenModel>::empty());
            return Ok(layout);
        }
        let ghost plan = planned_screens(*config, sequence_len);
        let mut screens: Vec<Screen> = Vec::new();
        let mut screen_start: usize = 0;
        loop
            invariant_except_break
                config.is_valid(),
                screen_start < sequence_len,
                plan == planned_screens(*config, sequence_len),
                plan == prepend(
                    screens@.map_values(|screen: Screen| screen@),
                    screen_plan(*config, screen_start, sequence_len, screens@.len()),
                ),
            ensures
                plan == Ok::<Seq<ScreenModel>, LayoutFault>(
                    screens@.map_values(|screen: Screen| screen@),
                ),
            decreases sequence_len - screen_start,
        {
            let ghost before = screens@.map_values(|screen: Screen| screen@);
            if let Some(max_screen_count) = config.screens.max_screen_count {
                if screens.len() >= max_screen_count {
                    assert(before + Seq::<ScreenModel>::empty() =~= before);
                    break;
                }
            }
            let window = config.screens.tokens_per_screen;
            let screen_end = {
                let reach = screen_start.saturating_add(window);
                if reach < sequence_len {
                    reach
                } else {
                    sequence_len
                }
            };
            let screen_span = TokenSpan::new(screen_start, screen_end)?;
            let screen_index = screens.len();
            let tiles = build_tiles(config, screen_index, screen_span)?;
            let screen = Screen::new(screen_index, screen_span, tiles);
            screens.push(screen);
            proof {
                assert(screens@.map_values(|screen: Screen| screen@) =~= before + seq![screen@]);
            }
            if screen_end == sequence_len {
                break;
            }
            let next = next_window_start(
                screen_start,
                sequence_len,
                window,
                config.screens.screen_stride_tokens,
                "screen",
            )?;
            match next {
                None => {
                    break;
                },
                Some(next_start) => {
                    proof {
                        let rest = screen_plan(
                            *config,
                            next_start,
                            sequence_len,
                            before.len() + 1,
                        );
                        match rest {
                            Ok(items) => {
                                assert(before + (seq![screen@] + items) =~= before + seq![screen@]
                                    + items);
                            },
                            Err(_) => {},
                        }
                    }
                    screen_start = next_start;
                },
            }
        }
        Ok(ScreenLayout { sequence_len, screens })
    }

    /// Paper sequence length `T` for this layout.
    pub fn sequence_len(&self) -> (len: usize)
        ensures
            len == self@.sequence_len,
    {
        self.sequence_len
    }

    /// Older name of [`Self::sequence_len`].
    pub fn token_count(&self) -> (len: usize)
        ensures
            len == self@.sequence_len,
    {
        self.sequence_len()
    }

    pub fn screens(&self) -> (screens: &[Screen])
        ensures
            screens@.map_values(|screen: Screen| screen@) == self@.screens,
    {
        self.screens.as_slice()
    }

    /// Total number of tiles over all screens.
    pub fn screening_tile_count(&self) -> (count: usize)
        requires
            tile_total(self@.screens) <= usize::MAX,
        ensures
            count == tile_total(self@.screens),
    {
        let ghost models = self@.screens;
        let mut count: usize = 0;
        let mut i: usize = 0;
        while i < self.screens.len()
            invariant
                models == self@.screens,
                models == self.screens@.map_values(|screen: Screen| screen@),
                tile_total(models) <= usize::MAX,
                i <= self.screens.len(),
                count == tile_total(models.take(i as int)),
            decreases self.screens.len() - i,
        {
            proof {
                assert(models.take(i + 1).drop_last() =~= models.take(i as int));
                lemma_tile_total_prefix(models, i + 1);
            }
            count = count + self.screens[i].tiles.len();
            i = i + 1;
        }
        assert(models.take(i as int) =~= models);
        count
    }

    /// Every tile of the layout, screen after screen.
    pub fn screening_tiles(&self) -> (tiles: Vec<Tile>)
        ensures
            tiles@ == all_tiles(self@.screens),
    {
        let ghost models = self@.screens;
        let mut tiles: Vec<Tile> = Vec::new();
        let mut i: usize = 0;
        while i < self.screens.len()
            invariant
                models == self.screens@.map_values(|screen: Screen| screen@),
                i <= self.screens.len(),
                tiles@ == all_tiles(models.take(i as int)),
            decreases self.screens.len() - i,
        {
            let screen = &self.screens[i];
            let mut j: usize = 0;
            let ghost start = tiles@;
            while j < screen.tiles.len()
                invariant
                    j <= screen.tiles.len(),
                    tiles@ == start + screen.tiles@.take(j as int),
                decreases screen.tiles.len() - j,
            {
                tiles.push(screen.tiles[j]);
                j = j + 1;
                assert(tiles@ =~= start + screen.tiles@.take(j as int));
            }
            proof {
                assert(models.take(i + 1).drop_last() =~= models.take(i as int));
                assert(screen.tiles@.take(j as int) =~= screen.tiles@);
            }
            i = i + 1;
        }
        assert(models.take(i as int) =~= models);
        tiles
    }

    /// Older name of [`Self::screening_tiles`].
    pub fn tiles(&self) -> (tiles: Vec<Tile>)
        ensures
            tiles@ == all_tiles(self@.screens),
    {
        self.screening_tiles()
    }
}

/// The tile total of a prefix never exceeds that of the whole sequence.
proof fn lemma_tile_total_prefix(screens: Seq<ScreenModel>, n: int)
    requires
        0 <= n <= screens.len(),
    ensures
        tile_total(screens.take(n)) <= tile_total(screens),
    decreases screens.len() - n,
{
    if n < screens.len() {
        lemma_tile_total_prefix(screens, n + 1);
        assert(screens.take(n + 1).drop_last() =~= screens.take(n));
    } else {
        assert(screens.take(n) =~= screens);
    }
}

/// Works out where the window after the one starting at `current_start`
/// begins, or `None` when the window reaching `sequence_end` was the last.
fn next_window_start(
    current_start: usize,
    sequence_end: usize,
    window_len: usize,
    stride: usize,
    label: &str,
) -> (result: Result<Option<usize>>)
    ensures
        current_start + stride > usize::MAX ==> (result matches Err(e) && e is Layout
            && e.message() == label@ + " stride overflowed usize"@),
        current_start + stride <= usize::MAX ==> result == Ok::<Option<usize>, Error>(
            next_start(current_start, sequence_end, window_len, stride),
        ),
{
    let next_start = match current_start.checked_add(stride) {
        Some(next) => next,
        None => {
            return Err(
                Error::Layout(String::from_str(label).concat(" stride overflowed usize")),
            );
        },
    };
    if next_start < sequence_end {
        return Ok(Some(next_start));
    }
    let tail_start = sequence_end.saturating_sub(window_len);
    if tail_start > current_start {
        Ok(Some(tail_start))
    } else {
        Ok(None)
    }
}

fn build_tiles(config: &MultiscreenConfig, screen_index: usize, screen_span: TokenSpan) -> (result:
    Result<Vec<Tile>>)
    requires
        config.is_valid(),
        screen_span.start <= screen_span.end,
    ensures
        match tile_plan(*config, screen_index, screen_span.start, screen_span.end, 0) {
            Ok(tiles) => result matches Ok(v) && v@ == tiles,
            Err(fault) => result matches Err(e) && reports_fault(e, fault),
        },
{
    if screen_span.is_empty() {
        return Ok(Vec::new());
    }
    let ghost plan = tile_plan(*config, screen_index, screen_span.start, screen_span.end, 0);
    let mut tiles: Vec<Tile> = Vec::new();
    let mut tile_start = screen_span.start;
    let grid = config.tiles.screening_grid;
    loop
        invariant_except_break
            config.is_valid(),
            grid == config.tiles.screening_grid,
            screen_span.start <= tile_start < screen_span.end,
            plan == tile_plan(*config, screen_index, screen_span.start, screen_span.end, 0),
            plan == prepend(
                tiles@,
                tile_plan(*config, screen_index, tile_start, screen_span.end, tiles@.len()),
            ),
        ensures
            plan == Ok::<Seq<Tile>, LayoutFault>(tiles@),
        decreases screen_span.end - tile_start,
    {
        let window = config.tiles.tokens_per_tile;
        let tile_end = {
            let reach = tile_start.saturating_add(window);
            if reach < screen_span.end {
                reach
            } else {
                screen_span.end
            }
        };
        let span = TokenSpan::new(tile_start, tile_end)?;
        let tile_index = tiles.len();
        let layer_index = (tile_index / grid.head_count) % grid.layer_count;
        let head_index = tile_index % grid.head_count;
        let tile = Tile::new(tile_index, screen_index, layer_index, head_index, span);
        let ghost before = tiles@;
        assert(tile == planned_tile(grid, screen_index, before.len(), tile_start, tile_end));
        tiles.push(tile);
        if tile_end == screen_span.end {
            assert(before + seq![tile] =~= tiles@);
            break;
        }
        let next = next_window_start(
            tile_start,
            screen_span.end,
            window,
            config.tiles.tile_stride_tokens,
            "tile",
        )?;
        match next {
            None => {
                assert(before + seq![tile] =~= tiles@);
                break;
            },
            Some(next_start) => {
                proof {
                    let rest = tile_plan(
                        *config,
                        screen_index,
                        next_start,
                        screen_span.end,
                        before.len() + 1,
                    );
                    assert(before + seq![tile] =~= tiles@);
                    match rest {
                        Ok(items) => {
                            assert(before + (seq![tile] + items) =~= tiles@ + items);
                        },
                        Err(_) => {},
                    }
                }
                tile_start = next_start;
            },
        }
    }
    Ok(tiles)
}

/// Shape of a successful tile plan for the span `[start, end)`: consecutive
/// tile indices from `count`, grid slots taken in row-major order, every tile
/// non-empty, no longer than a tile window and inside the span, tile starts
/// strictly increasing, the first tile starting at `start` and the last one
/// ending at `end`.
pub open spec fn tiles_fit(
    config: MultiscreenConfig,
    screen_index: usize,
    start: usize,
    end: usize,
    count: nat,
    tiles: Seq<Tile>,
) -> bool {
    &&& 0 < tiles.len() <= end - start
    &&& tiles[0].span.start == start
    &&& tiles.last().span.end == end
    &&& forall|i: int|
        #![trigger tiles[i]]
        0 <= i < tiles.len() ==> {
            &&& tiles[i] == planned_tile(
                config.tiles.screening_grid,
                screen_index,
                (count + i) as nat,
                tiles[i].span.start,
                tiles[i].span.end,
            )
            &&& start <= tiles[i].span.start < tiles[i].span.end <= end
            &&& tiles[i].span.end - tiles[i].span.start <= config.tiles.tokens_per_tile
        }
    &&& forall|i: int, j: int|
        0 <= i < j < tiles.len() ==> #[trigger] tiles[i].span.start < #[trigger] tiles[j].span.start
}

/// Shape of a successful screen plan from `start` over `sequence_len` tokens:
/// consecutive screen indices from `count`, every screen non-empty, no longer
/// than a screen window and inside `[start, sequence_len)`, with well-placed
/// tiles, screen starts strictly increasing, the first screen starting at
/// `start`, at most `max_screen_count` screens in all and, without that limit,
/// the last screen ending at `sequence_len`.
pub open spec fn screens_fit(
    config: MultiscreenConfig,
    start: usize,
    sequence_len: usize,
    count: nat,
    screens: Seq<ScreenModel>,
) -> bool {
    &&& screens.len() <= sequence_len - start
    &&& screens.len() > 0 ==> screens[0].span.start == start
    &&& config.screens.max_screen_count is None ==> screens.len() > 0 && screens.last().span.end
        == sequence_len
    &&& config.screens.max_screen_count matches Some(max) ==> screens.len() == 0 || count
        + screens.len() <= max
    &&& forall|k: int|
        #![trigger screens[k]]
        0 <= k < screens.len() ==> {
            &&& screens[k].index == (count + k) as usize
            &&& start <= screens[k].span.start < screens[k].span.end <= sequence_len
            &&& screens[k].span.end - screens[k].span.start <= config.screens.tokens_per_screen
            &&& tiles_fit(
                config,
                screens[k].index,
                screens[k].span.start,
                screens[k].span.end,
                0,
                screens[k].tiles,
            )
            &&& tile_plan(config, screens[k].index, screens[k].span.start, screens[k].span.end, 0)
                == Ok::<Seq<Tile>, LayoutFault>(screens[k].tiles)
        }
    &&& forall|i: int, j: int|
        0 <= i < j < screens.len() ==> #[trigger] screens[i].span.start
            < #[trigger] screens[j].span.start
}

proof fn lemma_tile_plan_fits(
    config: MultiscreenConfig,
    screen_index: usize,
    start: usize,
    end: usize,
    count: nat,
)
    requires
        config.is_valid(),
        start < end,
    ensures
        tile_plan(config, screen_index, start, end, count) matches Ok(tiles) ==> tiles_fit(
            config,
            screen_index,
            start,
            end,
            count,
            tiles,
        ),
    decreases end - start,
{
    let len = config.tiles.tokens_per_tile;
    let stride = config.tiles.tile_stride_tokens;
    let tile_end = window_end(start, end, len);
    let tile = planned_tile(config.tiles.screening_grid, screen_index, count, start, tile_end);
    if tile_end != end && start + stride <= usize::MAX {
        let next = next_start(start, end, len, stride).unwrap();
        assert(next > start);
        lemma_tile_plan_fits(config, screen_index, next, end, count + 1);
        if let Ok(items) = tile_plan(config, screen_index, next, end, count + 1) {
            let tiles = seq![tile] + items;
            assert(tile_plan(config, screen_index, start, end, count) == Ok::<
                Seq<Tile>,
                LayoutFault,
            >(tiles));
            assert forall|i: int| 0 <= i < tiles.len() implies {
                &&& tiles[i] == planned_tile(
                    config.tiles.screening_grid,
                    screen_index,
                    (count + i) as nat,
                    tiles[i].span.start,
                    tiles[i].span.end,
                )
                &&& start <= tiles[i].span.start < tiles[i].span.end <= end
                &&& tiles[i].span.end - tiles[i].span.start <= len
            } by {
                if i > 0 {
                    assert(tiles[i] == items[i - 1]);
                    assert((count + 1 + (i - 1)) as nat == (count + i) as nat);
                }
            }
            assert forall|i: int, j: int| 0 <= i < j < tiles.len() implies #[trigger] tiles[i].span.start
                < #[trigger] tiles[j].span.start by {
                assert(tiles[j] == items[j - 1]);
                if i > 0 {
                    assert(tiles[i] == items[i - 1]);
                }
            }
            assert(tiles.last() == items.last());
        }
    }
}

proof fn lemma_screen_plan_fits(
    config: MultiscreenConfig,
    start: usize,
    sequence_len: usize,
    count: nat,
)
    requires
        config.is_valid(),
        start < sequence_len,
        count + (sequence_len - start) <= usize::MAX,
    ensures
        screen_plan(config, start, sequence_len, count) matches Ok(screens) ==> screens_fit(
            config,
            start,
            sequence_len,
            count,
            screens,
        ),
    decreases sequence_len - start,
{
    let len = config.screens.tokens_per_screen;
    let stride = config.screens.screen_stride_tokens;
    let screen_end = window_end(start, sequence_len, len);
    if config.screens.max_screen_count matches Some(max) && count >= max {
    } else {
        lemma_tile_plan_fits(config, count as usize, start, screen_end, 0);
        if let Ok(tiles) = tile_plan(config, count as usize, start, screen_end, 0) {
            let screen = ScreenModel {
                index: count as usize,
                span: TokenSpan { start, end: screen_end },
                tiles,
            };
            if screen_end != sequence_len && start + stride <= usize::MAX {
                let next = next_start(start, sequence_len, len, stride).unwrap();
                assert(next > start);
                lemma_screen_plan_fits(config, next, sequence_len, count + 1);
                if let Ok(items) = screen_plan(config, next, sequence_len, count + 1) {
                    let screens = seq![screen] + items;
                    assert(screen_plan(config, start, sequence_len, count) == Ok::<
                        Seq<ScreenModel>,
                        LayoutFault,
                    >(screens));
                    assert forall|k: int| 0 <= k < screens.len() implies {
                        &&& screens[k].index == (count + k) as usize
                        &&& start <= screens[k].span.start < screens[k].span.end <= sequence_len
                        &&& screens[k].span.end - screens[k].span.start <= len
                        &&& tiles_fit(
                            config,
                            screens[k].index,
                            screens[k].span.start,
                            screens[k].span.end,
                            0,
                            screens[k].tiles,
                        )
                        &&& tile_plan(
                            config,
                            screens[k].index,
                            screens[k].span.start,
                            screens[k].span.end,
                            0,
                        ) == Ok::<Seq<Tile>, LayoutFault>(screens[k].tiles)
                    } by {
                        if k > 0 {
                            assert(screens[k] == items[k - 1]);
                        }
                    }
                    assert forall|i: int, j: int| 0 <= i < j < screens.len() implies #[trigger] screens[i].span.start
                        < #[trigger] screens[j].span.start by {
                        assert(screens[j] == items[j - 1]);
                        if i > 0 {
                            assert(screens[i] == items[i - 1]);
                        }
                    }
                    if items.len() > 0 {
                        assert(screens.last() == items.last());
                    }
                }
            }
        }
    }
}

/// Every layout that [`ScreenLayout::build`] plans is well formed: screens are
/// numbered `0, 1, ...` in order of strictly increasing start, each is a
/// non-empty span inside `[0, sequence_len)` no longer than
/// `tokens_per_screen`; the first starts at token 0; there are at most
/// `max_screen_count` of them and, without that limit, the last one ends at
/// `sequence_len`. Within each screen the tiles are numbered `0, 1, ...`,
/// take their layer/head slot from their number in row-major order, are
/// non-empty spans inside the screen no longer than `tokens_per_tile`, start
/// strictly increasing, and run from the screen's start to its end.
pub proof fn lemma_planned_layout_well_formed(config: MultiscreenConfig, sequence_len: usize)
    requires
        config.is_valid(),
        sequence_len > 0,
    ensures
        planned_screens(config, sequence_len) matches Ok(screens) ==> {
            &&& screens_fit(config, 0, sequence_len, 0, screens)
            &&& screens.len() > 0
            &&& forall|k: int|
                #![trigger screens[k]]
                0 <= k < screens.len() ==> screens[k].index == k && forall|i: int|
                    #![trigger screens[k].tiles[i]]
                    0 <= i < screens[k].tiles.len() ==> {
                        let tile = screens[k].tiles[i];
                        let grid = config.tiles.screening_grid;
                        &&& tile.index == i
                        &&& tile.screen_index == k
                        &&& tile.head_index == i % grid.head_count as int
                        &&& tile.layer_index == (i / grid.head_count as int) % grid.layer_count as int
                        &&& tile.head_index < grid.head_count
                        &&& tile.layer_index < grid.layer_count
                    }
        },
{
    lemma_screen_plan_fits(config, 0, sequence_len, 0);
    if let Ok(screens) = planned_screens(config, sequence_len) {
        assert(screens.len() > 0);
        assert forall|k: int| 0 <= k < screens.len() implies #[trigger] screens[k].index == k
            && forall|i: int|
            #![trigger screens[k].tiles[i]]
            0 <= i < screens[k].tiles.len() ==> {
                let tile = screens[k].tiles[i];
                let grid = config.tiles.screening_grid;
                &&& tile.index == i
                &&& tile.screen_index == k
                &&& tile.head_index == i % grid.head_count as int
                &&& tile.layer_index == (i / grid.head_count as int) % grid.layer_count as int
                &&& tile.head_index < grid.head_count
                &&& tile.layer_index < grid.layer_count
            } by {
            let s = screens[k];
            let grid = config.tiles.screening_grid;
            assert forall|i: int| 0 <= i < s.tiles.len() implies {
                let tile = #[trigger] s.tiles[i];
                &&& tile.index == i
                &&& tile.screen_index == k
                &&& tile.head_index == i % grid.head_count as int
                &&& tile.layer_index == (i / grid.head_count as int) % grid.layer_count as int
                &&& tile.head_index < grid.head_count
                &&& tile.layer_index < grid.layer_count
            } by {
                let h = grid.head_count as int;
                let l = grid.layer_count as int;
                assert(0 <= i % h < h) by (nonlinear_arith)
                    requires
                        h > 0,
                ;
                assert(0 <= (i / h) % l < l) by (nonlinear_arith)
                    requires
                        h > 0,
                        l > 0,
                        i >= 0,
                ;
            }
        }
    }
}

proof fn lemma_tile_plan_covers(
    config: MultiscreenConfig,
    screen_index: usize,
    start: usize,
    end: usize,
    count: nat,
    token: usize,
)
    requires
        config.is_valid(),
        start <= token < end,
        config.tiles.tile_stride_tokens <= config.tiles.tokens_per_tile,
    ensures
        tile_plan(config, screen_index, start, end, count) matches Ok(tiles) ==> exists|i: int|
            0 <= i < tiles.len() && #[trigger] tiles[i].span.start <= token < tiles[i].span.end,
    decreases end - start,
{
    let len = config.tiles.tokens_per_tile;
    let stride = config.tiles.tile_stride_tokens;
    let tile_end = window_end(start, end, len);
    if let Ok(tiles) = tile_plan(config, screen_index, start, end, count) {
        lemma_tile_plan_fits(config, screen_index, start, end, count);
        if token < tile_end {
            assert(tiles[0].span.start <= token < tiles[0].span.end);
        } else {
            let next = next_start(start, end, len, stride).unwrap();
            assert(next <= tile_end);
            lemma_tile_plan_covers(config, screen_index, next, end, count + 1, token);
            let items = tile_plan(config, screen_index, next, end, count + 1)->Ok_0;
            let i = choose|i: int|
                0 <= i < items.len() && #[trigger] items[i].span.start <= token < items[i].span.end;
            assert(tiles[i + 1] == items[i]);
        }
    }
}

proof fn lemma_screen_plan_covers(
    config: MultiscreenConfig,
    start: usize,
    sequence_len: usize,
    count: nat,
    token: usize,
)
    requires
        config.is_valid(),
        start <= token < sequence_len,
        count + (sequence_len - start) <= usize::MAX,
        config.screens.max_screen_count is None,
        config.screens.screen_stride_tokens <= config.screens.tokens_per_screen,
    ensures
        screen_plan(config, start, sequence_len, count) matches Ok(screens) ==> exists|k: int|
            0 <= k < screens.len() && #[trigger] screens[k].span.start <= token
                < screens[k].span.end,
    decreases sequence_len - start,
{
    let len = config.screens.tokens_per_screen;
    let stride = config.screens.screen_stride_tokens;
    let screen_end = window_end(start, sequence_len, len);
    if let Ok(screens) = screen_plan(config, start, sequence_len, count) {
        lemma_screen_plan_fits(config, start, sequence_len, count);
        if token < screen_end {
            assert(screens[0].span.start <= token < screens[0].span.end);
        } else {
            let next = next_start(start, sequence_len, len, stride).unwrap();
            assert(next <= screen_end);
            lemma_screen_plan_covers(config, next, sequence_len, count + 1, token);
            let items = screen_plan(config, next, sequence_len, count + 1)->Ok_0;
            let k = choose|k: int|
                0 <= k < items.len() && #[trigger] items[k].span.start <= token < items[k].span.end;
            assert(screens[k + 1] == items[k]);
        }
    }
}

/// When strides do not exceed their windows and the screen count is not
/// limited, a planned layout leaves no token out: every token lies in some
/// screen, and every token of a screen lies in one of its tiles.
pub proof fn lemma_planned_layout_covers(
    config: MultiscreenConfig,
    sequence_len: usize,
    token: usize,
)
    requires
        config.is_valid(),
        token < sequence_len,
        config.screens.max_screen_count is None,
        config.screens.screen_stride_tokens <= config.screens.tokens_per_screen,
        config.tiles.tile_stride_tokens <= config.tiles.tokens_per_tile,
    ensures
        planned_screens(config, sequence_len) matches Ok(screens) ==> exists|k: int, i: int|
            0 <= k < screens.len() && 0 <= i < screens[k].tiles.len()
                && #[trigger] screens[k].tiles[i].span.start <= token
                < screens[k].tiles[i].span.end && screens[k].span.start <= token
                < screens[k].span.end,
{
    lemma_screen_plan_covers(config, 0, sequence_len, 0, token);
    if let Ok(screens) = planned_screens(config, sequence_len) {
        lemma_screen_plan_fits(config, 0, sequence_len, 0);
        let k = choose|k: int|
            0 <= k < screens.len() && #[trigger] screens[k].span.start <= token
                < screens[k].span.end;
        let s = screens[k];
        lemma_tile_plan_covers(config, s.index, s.span.start, s.span.end, 0, token);
        let i = choose|i: int|
            0 <= i < s.tiles.len() && #[trigger] s.tiles[i].span.start <= token
                < s.tiles[i].span.end;
        assert(screens[k].tiles[i].span.start <= token < screens[k].tiles[i].span.end);
    }
}

} // verus!
