//! The grid sequencer: it owns the grid and the playback settings, and turns
//! what happens around it (play and pause, a sample that ended, the gap timer
//! that fired, an edited cell) into the next state and one command for the
//! media surface.

use vstd::prelude::*;
use crate::chance::random_in;
use crate::grid::{clone_grid, erase_grid, resize_grid, spec_erased, spec_resize};
use crate::preset::{Preset, PresetView};
use crate::sample::Sample;
use crate::settings::{spec_step_gap, step_gap};
use crate::shared::{Operation, DEFAULT_GAP_MS, DEFAULT_VOLUME, GRID_ROWS_MAX, GRID_ROWS_MIN};

verus! {

/// What the media surface has to do after a step of the sequencer.
#[derive(Debug, PartialEq)]
pub enum Command {
    /// Stop the preview channel, load the cell's sample into the main channel
    /// (silence of no length for an empty cell) and start it.
    Start(Option<Sample>),
    /// Pause and rewind the main channel, and drop the gap timer if one is
    /// armed.
    Stop { cancel_timer: bool },
    /// Arm the gap timer.
    Wait { delay_ms: u64 },
    /// Nothing.
    Idle,
}

/// What the preview channel has to do after a click on a sample.
#[derive(Debug, PartialEq, Eq)]
pub enum PreviewCommand {
    /// Pause and rewind the preview channel.
    Halt,
    /// Load the file at this address into the preview channel and start it.
    Play(String),
    /// Nothing.
    Idle,
}

/// What a click on a sample does to the preview channel: a click on the
/// sample that is being previewed stops it, a click on any other sample
/// starts that one.
pub fn toggle_preview(sound_url: String, preview_paused: bool, preview_has_url: bool) -> (command:
    PreviewCommand)
    ensures
        command == (if !preview_paused && preview_has_url {
            PreviewCommand::Halt
        } else {
            PreviewCommand::Play(sound_url)
        }),
{
    if !preview_paused && preview_has_url {
        PreviewCommand::Halt
    } else {
        PreviewCommand::Play(sound_url)
    }
}

/// The sample library's state: which cell it is open for, if it is open.
#[derive(Debug, Clone, Copy, PartialEq, Eq, Structural)]
pub struct CellEditor {
    pub editing: Option<u16>,
}

impl CellEditor {
    /// A closed library.
    pub fn new() -> (editor: CellEditor)
        ensures
            editor.editing is None,
    {
        CellEditor { editing: None }
    }

    /// Opens the library for the cell at `index`. A preview that runs in the
    /// grid is stopped.
    pub fn open(&mut self, index: u16, preview_paused: bool) -> (command: PreviewCommand)
        ensures
            final(self).editing == Some(index),
            command == (if preview_paused {
                PreviewCommand::Idle
            } else {
                PreviewCommand::Halt
            }),
    {
        self.editing = Some(index);
        if preview_paused {
            PreviewCommand::Idle
        } else {
            PreviewCommand::Halt
        }
    }

    /// Closes the library. The preview is stopped.
    pub fn close(&mut self) -> (command: PreviewCommand)
        ensures
            final(self).editing is None,
            command == PreviewCommand::Halt,
    {
        self.editing = None;
        PreviewCommand::Halt
    }

    /// Whether the button that clears the cell is shown: the library is open
    /// for a cell that holds a sample.
    pub fn is_cell_filled(&self, seq: &Sequencer) -> (filled: bool)
        ensures
            filled == (self.editing matches Some(index) && index < seq.grid@.len()
                && seq.grid@[index as int] is Some),
    {
        match self.editing {
            Some(index) => seq.is_cell_filled(index as usize),
            None => false,
        }
    }

    /// Puts the chosen sample into the cell that the library is open for, or
    /// clears that cell where `cell` is none, and closes the library. With
    /// the library closed nothing happens.
    pub fn pick(&mut self, seq: &mut Sequencer, cell: Option<Sample>) -> (command: Command)
        ensures
            final(self).editing is None,
            (final(seq)@, command) == (match old(self).editing {
                Some(index) => old(seq)@.set_cell(index as int, cell),
                None => (old(seq)@, Command::Idle),
            }),
    {
        match self.editing {
            Some(index) => {
                self.editing = None;
                seq.set_cell(index as usize, cell)
            },
            None => Command::Idle,
        }
    }
}

/// The sequencer's state.
#[derive(Debug)]
pub struct Sequencer {
    pub grid: Vec<Option<Sample>>,
    /// Index of the cell that plays, or played last.
    pub current: usize,
    pub playing: bool,
    /// Silence between two steps, in milliseconds.
    pub gap_ms: u64,
    /// Whether the next cell is drawn at random.
    pub random: bool,
    /// Volume of both channels, in percent.
    pub volume: u8,
    /// Cells per row.
    pub row_size: u16,
    /// Whether the gap timer is armed.
    pub timer_armed: bool,
}

/// The sequencer's state as a mathematical value.
pub struct SequencerState {
    pub grid: Seq<Option<Sample>>,
    pub current: int,
    pub playing: bool,
    pub gap_ms: int,
    pub random: bool,
    pub volume: int,
    pub row_size: nat,
    pub timer_armed: bool,
}

impl View for Sequencer {
    type V = SequencerState;

    open spec fn view(&self) -> SequencerState {
        SequencerState {
            grid: self.grid@,
            current: self.current as int,
            playing: self.playing,
            gap_ms: self.gap_ms as int,
            random: self.random,
            volume: self.volume as int,
            row_size: self.row_size as nat,
            timer_armed: self.timer_armed,
        }
    }
}

/// The index that follows `current` in order: one further, and the first
/// cell after the last. On an empty grid it is 0.
pub open spec fn spec_sequential_next(current: int, len: int) -> int {
    if len <= 0 {
        0
    } else {
        (current + 1) % len
    }
}

/// Lower end of the range from which a draw that hit `current` is redrawn.
pub open spec fn spec_redraw_low(current: int, len: int) -> int {
    if current > len / 2 {
        0
    } else {
        current + 1
    }
}

/// Upper end, exclusive, of the range from which a draw that hit `current`
/// is redrawn.
pub open spec fn spec_redraw_high(current: int, len: int) -> int {
    if current > len / 2 {
        current - 1
    } else {
        len
    }
}

/// What becomes of a first random draw.
#[derive(Debug, Clone, Copy, PartialEq, Eq, Structural)]
pub enum Draw {
    /// The draw differs from the current index: it is the next index.
    Accept(usize),
    /// The draw hit the current index: the next index is drawn from
    /// `lo..hi`.
    Redraw { lo: usize, hi: usize },
    /// The draw hit the current index and the redraw range is empty: the
    /// next index is the one that follows in order.
    Fallback(usize),
}

/// What becomes of the first draw `drawn` on a grid of `len` cells whose
/// current index is `current`.
pub open spec fn spec_resolve_draw(current: int, len: int, drawn: int) -> Draw {
    if drawn != current {
        Draw::Accept(drawn as usize)
    } else if spec_redraw_low(current, len) < spec_redraw_high(current, len) {
        Draw::Redraw {
            lo: spec_redraw_low(current, len) as usize,
            hi: spec_redraw_high(current, len) as usize,
        }
    } else {
        Draw::Fallback(spec_sequential_next(current, len) as usize)
    }
}

/// Whether `next` can follow `current` on a grid of `len` cells: in order it
/// is the sequential successor; at random it is any index of the grid but
/// `current` (on a grid of one cell, that cell).
pub open spec fn spec_may_follow(random: bool, current: int, len: int, next: int) -> bool {
    if len <= 0 {
        next == 0
    } else if random {
        0 <= next < len && (len >= 2 ==> next != current)
    } else {
        next == spec_sequential_next(current, len)
    }
}

/// In order, the cell after `current` is one further, and the first cell
/// after the last.
pub proof fn lemma_sequential_advance(current: int, len: int)
    requires
        0 <= current < len,
    ensures
        spec_sequential_next(current, len) == (current + 1) % len,
        current < len - 1 ==> spec_sequential_next(current, len) == current + 1,
        current == len - 1 ==> spec_sequential_next(current, len) == 0,
{
    if current == len - 1 {
        vstd::arithmetic::div_mod::lemma_mod_self_0(len);
    } else {
        vstd::arithmetic::div_mod::lemma_small_mod((current + 1) as nat, len as nat);
    }
}

/// On a grid of two or more cells, whatever is drawn first and whatever is
/// drawn again: the next index is an index of the grid and never the current
/// one.
pub proof fn lemma_random_never_repeats(current: int, len: int, first: int, second: int)
    requires
        len >= 2,
        0 <= current <= usize::MAX,
        len <= usize::MAX,
        0 <= first < len,
        spec_redraw_low(current, len) <= second < spec_redraw_high(current, len),
    ensures
        match spec_resolve_draw(current, len, first) {
            Draw::Accept(next) => next != current && next < len,
            Draw::Redraw { lo, hi } => lo <= second < hi && second != current && 0 <= second < len,
            Draw::Fallback(next) => next != current && next < len,
        },
        forall|next: int| spec_may_follow(true, current, len, next) ==> next != current && 0 <= next < len,
{
    if first == current && !(spec_redraw_low(current, len) < spec_redraw_high(current, len)) {
        lemma_sequential_advance(current, len);
    }
}

/// The index that follows `current` in order.
pub fn sequential_next(current: usize, len: usize) -> (next: usize)
    ensures
        next == spec_sequential_next(current as int, len as int),
        len > 0 ==> next < len,
{
    if len == 0 {
        0
    } else {
        let here: usize = current % len;
        assert((current + 1) % (len as int) == ((current % len) + 1) % (len as int)) by {
            vstd::arithmetic::div_mod::lemma_add_mod_noop(current as int, 1, len as int);
            vstd::arithmetic::div_mod::lemma_add_mod_noop((current % len) as int, 1, len as int);
            vstd::arithmetic::div_mod::lemma_mod_twice(current as int, len as int);
        }
        if here == len - 1 {
            proof {
                vstd::arithmetic::div_mod::lemma_mod_self_0(len as int);
            }
            0
        } else {
            proof {
                vstd::arithmetic::div_mod::lemma_small_mod((here + 1) as nat, len as nat);
            }
            here + 1
        }
    }
}

/// Decides what becomes of a first random draw.
pub fn resolve_draw(current: usize, len: usize, drawn: usize) -> (verdict: Draw)
    requires
        drawn < len,
    ensures
        verdict == spec_resolve_draw(current as int, len as int, drawn as int),
        verdict matches Draw::Accept(next) ==> next < len && next != current,
        verdict matches Draw::Redraw { lo, hi } ==> lo < hi <= len && !(lo <= current < hi),
        verdict matches Draw::Fallback(next) ==> next < len && (len >= 2 ==> next != current),
{
    if drawn != current {
        Draw::Accept(drawn)
    } else if current > len / 2 {
        if 0 < current - 1 {
            Draw::Redraw { lo: 0, hi: current - 1 }
        } else {
            Draw::Fallback(sequential_next(current, len))
        }
    } else if current + 1 < len {
        Draw::Redraw { lo: current + 1, hi: len }
    } else {
        let next = sequential_next(current, len);
        assert(len >= 2 ==> next != current) by {
            if len >= 2 {
                assert(current == len - 1);
                vstd::arithmetic::div_mod::lemma_mod_self_0(len as int);
            }
        }
        Draw::Fallback(next)
    }
}

/// The index that plays after `current`: the sequential successor, or with
/// `random` an index drawn so that it never repeats `current` on a grid of
/// two or more cells.
pub fn next_index(random: bool, current: usize, len: usize) -> (next: usize)
    ensures
        spec_may_follow(random, current as int, len as int, next as int),
{
    if len == 0 {
        0
    } else if random {
        let drawn = random_in(0, len);
        match resolve_draw(current, len, drawn) {
            Draw::Accept(next) => next,
            Draw::Redraw { lo, hi } => random_in(lo, hi),
            Draw::Fallback(next) => next,
        }
    } else {
        sequential_next(current, len)
    }
}

impl SequencerState {
    /// Cues the current cell. While playing, the cell is started; an index
    /// beyond the grid first falls back to the first cell. While stopped,
    /// the main channel is halted and the gap timer dropped.
    pub open spec fn refresh(self) -> (SequencerState, Command) {
        if self.playing {
            if 0 <= self.current < self.grid.len() {
                (self, Command::Start(self.grid[self.current]))
            } else if self.grid.len() > 0 {
                (SequencerState { current: 0, ..self }, Command::Start(self.grid[0]))
            } else {
                (SequencerState { current: 0, ..self }, Command::Idle)
            }
        } else {
            (
                SequencerState { timer_armed: false, ..self },
                Command::Stop { cancel_timer: self.timer_armed },
            )
        }
    }

    /// Play or pause.
    pub open spec fn set_play(self, on: bool) -> (SequencerState, Command) {
        SequencerState { playing: on, ..self }.refresh()
    }

    /// The sample in the main channel has ended: the gap timer is armed with
    /// the gap in force.
    pub open spec fn step_ended(self) -> (SequencerState, Command) {
        (SequencerState { timer_armed: true, ..self }, Command::Wait { delay_ms: self.gap_ms as u64 })
    }

    /// The gap timer has fired and `next` was chosen to follow. A timer that
    /// was dropped in the meantime changes nothing.
    pub open spec fn gap_elapsed(self, next: int) -> (SequencerState, Command) {
        if self.timer_armed {
            SequencerState { timer_armed: false, current: next, ..self }.refresh()
        } else {
            (self, Command::Idle)
        }
    }

    /// One cell is overwritten; an index beyond the grid changes nothing.
    pub open spec fn set_cell(self, index: int, cell: Option<Sample>) -> (SequencerState, Command) {
        if 0 <= index < self.grid.len() {
            SequencerState { grid: self.grid.update(index, cell), ..self }.refresh()
        } else {
            (self, Command::Idle)
        }
    }

    /// Another cell becomes the current one.
    pub open spec fn select(self, index: int) -> (SequencerState, Command) {
        SequencerState { current: index, ..self }.refresh()
    }

    /// The grid grows or shrinks by one row, within its bounds.
    pub open spec fn resize(self, op: Operation) -> (SequencerState, Command) {
        let grid = spec_resize(self.grid, op, self.row_size);
        if grid.len() != self.grid.len() {
            SequencerState { grid, ..self }.refresh()
        } else {
            (self, Command::Idle)
        }
    }

    /// The state with gap, volume, random flag and grid taken from a preset.
    pub open spec fn with_preset(self, preset: PresetView) -> SequencerState {
        SequencerState {
            gap_ms: preset.gap_duration,
            volume: preset.volume,
            random: preset.random_playback,
            grid: preset.grid_data,
            ..self
        }
    }

    /// The settings and the grid of a preset take the place of the current
    /// ones; playing stays as it is.
    pub open spec fn load(self, preset: PresetView) -> (SequencerState, Command) {
        self.with_preset(preset).refresh()
    }

    /// Every cell is emptied.
    pub open spec fn erase(self) -> (SequencerState, Command) {
        SequencerState { grid: spec_erased(self.grid), ..self }.refresh()
    }
}

impl Sequencer {
    /// A stopped sequencer on the given grid, at the first cell, with the
    /// settings of a first start.
    pub fn new(grid: Vec<Option<Sample>>, row_size: u16) -> (seq: Sequencer)
        ensures
            seq@ == (SequencerState {
                grid: grid@,
                current: 0,
                playing: false,
                gap_ms: DEFAULT_GAP_MS as int,
                random: false,
                volume: DEFAULT_VOLUME as int,
                row_size: row_size as nat,
                timer_armed: false,
            }),
    {
        Sequencer {
            grid,
            current: 0,
            playing: false,
            gap_ms: DEFAULT_GAP_MS,
            random: false,
            volume: DEFAULT_VOLUME,
            row_size,
            timer_armed: false,
        }
    }

    /// Cues the current cell (see [`SequencerState::refresh`]).
    pub fn refresh(&mut self) -> (command: Command)
        ensures
            (final(self)@, command) == old(self)@.refresh(),
    {
        if self.playing {
            if self.current >= self.grid.len() {
                self.current = 0;
            }
            if self.current < self.grid.len() {
                let cell = match &self.grid[self.current] {
                    Some(sample) => Some(sample.clone()),
                    None => None,
                };
                Command::Start(cell)
            } else {
                Command::Idle
            }
        } else {
            let cancel_timer = self.timer_armed;
            self.timer_armed = false;
            Command::Stop { cancel_timer }
        }
    }

    /// Starts or pauses playback. Starting cues the current cell at once;
    /// pausing halts the main channel and drops the gap timer.
    pub fn set_play(&mut self, on: bool) -> (command: Command)
        ensures
            (final(self)@, command) == old(self)@.set_play(on),
    {
        self.playing = on;
        self.refresh()
    }

    /// To be called when the main channel reports that its sample has ended:
    /// arms the gap timer. The gap is the same after a sample and after an
    /// empty cell.
    pub fn on_step_ended(&mut self) -> (command: Command)
        ensures
            (final(self)@, command) == old(self)@.step_ended(),
    {
        self.timer_armed = true;
        Command::Wait { delay_ms: self.gap_ms }
    }

    /// To be called when the gap timer fires: moves on to the next cell and
    /// cues it. In order, the next cell is the sequential successor; at
    /// random it is never the cell that just played, on a grid of two or more
    /// cells. On an empty grid the index goes back to 0.
    pub fn on_gap_elapsed(&mut self) -> (command: Command)
        ensures
            (final(self)@, command) == old(self)@.gap_elapsed(final(self)@.current),
            old(self).timer_armed ==> spec_may_follow(
                old(self).random,
                old(self).current as int,
                old(self).grid@.len() as int,
                final(self).current as int,
            ),
    {
        if self.timer_armed {
            self.timer_armed = false;
            self.current = next_index(self.random, self.current, self.grid.len());
            self.refresh()
        } else {
            Command::Idle
        }
    }

    /// Overwrites one cell; an index beyond the grid is ignored. Playback
    /// state is untouched.
    pub fn set_cell(&mut self, index: usize, cell: Option<Sample>) -> (command: Command)
        ensures
            (final(self)@, command) == old(self)@.set_cell(index as int, cell),
    {
        if index < self.grid.len() {
            self.grid[index] = cell;
            self.refresh()
        } else {
            Command::Idle
        }
    }

    /// Makes another cell the current one.
    pub fn select(&mut self, index: usize) -> (command: Command)
        ensures
            (final(self)@, command) == old(self)@.select(index as int),
    {
        self.current = index;
        self.refresh()
    }

    /// Adds or removes the last row. A request that would leave fewer than
    /// `GRID_ROWS_MIN` or more than `GRID_ROWS_MAX` rows is ignored.
    pub fn resize(&mut self, op: Operation) -> (command: Command)
        ensures
            (final(self)@, command) == old(self)@.resize(op),
    {
        if resize_grid(&mut self.grid, op, self.row_size) {
            self.refresh()
        } else {
            assert(self.grid@ =~= old(self).grid@);
            Command::Idle
        }
    }

    /// Empties every cell.
    pub fn erase(&mut self) -> (command: Command)
        ensures
            (final(self)@, command) == old(self)@.erase(),
    {
        erase_grid(&mut self.grid);
        self.refresh()
    }

    /// Takes gap, volume, random flag and grid from the preset, and cues
    /// nothing.
    pub fn apply_preset(&mut self, preset: &Preset)
        ensures
            final(self)@ == old(self)@.with_preset(preset@),
    {
        self.gap_ms = preset.gap_duration;
        self.volume = preset.volume;
        self.random = preset.random_playback;
        self.grid = clone_grid(&preset.grid_data);
    }

    /// Takes gap, volume, random flag and grid from the preset. Whether the
    /// sequencer plays is left as it is.
    pub fn load_preset(&mut self, preset: &Preset) -> (command: Command)
        ensures
            (final(self)@, command) == old(self)@.load(preset@),
    {
        self.apply_preset(preset);
        self.refresh()
    }

    /// A click on the cell at `index`, whose sample is served at `sound_url`
    /// (empty for an empty cell). While the sequencer is stopped, a filled
    /// cell is previewed or its preview stopped. In any case the cell becomes
    /// the current one.
    pub fn click_cell(
        &mut self,
        index: u16,
        sound_url: String,
        preview_paused: bool,
        preview_has_url: bool,
    ) -> (commands: (PreviewCommand, Command))
        ensures
            (final(self)@, commands.1) == old(self)@.select(index as int),
            commands.0 == (if old(self).playing || sound_url@.len() == 0 {
                PreviewCommand::Idle
            } else if !preview_paused && preview_has_url {
                PreviewCommand::Halt
            } else {
                PreviewCommand::Play(sound_url)
            }),
    {
        let preview = if self.playing || sound_url.as_str().unicode_len() == 0 {
            PreviewCommand::Idle
        } else {
            toggle_preview(sound_url, preview_paused, preview_has_url)
        };
        let command = self.select(index as usize);
        (preview, command)
    }

    /// The play button: flips between playing and stopped, unless the
    /// scheduler is on, which disables the button.
    pub fn toggle_play(&mut self, scheduler_on: bool) -> (command: Command)
        ensures
            (final(self)@, command) == (if scheduler_on {
                (old(self)@, Command::Idle)
            } else {
                old(self)@.set_play(!old(self).playing)
            }),
    {
        if scheduler_on {
            Command::Idle
        } else {
            let on = !self.playing;
            self.set_play(on)
        }
    }

    /// Flips between playing in order and playing at random.
    pub fn toggle_random(&mut self)
        ensures
            final(self)@ == (SequencerState { random: !old(self).random, ..old(self)@ }),
    {
        self.random = !self.random;
    }

    /// Sets the volume of both channels, in percent.
    pub fn set_volume(&mut self, percent: u8)
        ensures
            final(self)@ == (SequencerState { volume: percent as int, ..old(self)@ }),
    {
        self.volume = percent;
    }

    /// Sets the gap between two steps, in milliseconds.
    pub fn set_gap(&mut self, gap_ms: u64)
        ensures
            final(self)@ == (SequencerState { gap_ms: gap_ms as int, ..old(self)@ }),
    {
        self.gap_ms = gap_ms;
    }

    /// Lengthens or shortens the gap by one step; a step that would leave the
    /// range of the gap is ignored.
    pub fn step_gap(&mut self, op: Operation)
        ensures
            final(self)@ == (SequencerState {
                gap_ms: spec_step_gap(old(self).gap_ms as int, op),
                ..old(self)@
            }),
    {
        self.gap_ms = step_gap(self.gap_ms, op);
    }

    /// Whether the cell at `index` holds a sample.
    pub fn is_cell_filled(&self, index: usize) -> (filled: bool)
        ensures
            filled == (index < self.grid@.len() && self.grid@[index as int] is Some),
    {
        index < self.grid.len() && self.grid[index].is_some()
    }

    /// Whether the grid has the fewest rows it may have: the button that
    /// removes a row is dimmed.
    pub fn at_fewest_rows(&self) -> (yes: bool)
        ensures
            yes == (self.row_size != 0 && self.grid@.len() as int / self.row_size as int
                == GRID_ROWS_MIN),
    {
        self.rows() == GRID_ROWS_MIN as usize && self.row_size != 0
    }

    /// Whether the grid has the most rows it may have: the button that adds
    /// a row is dimmed.
    pub fn at_most_rows(&self) -> (yes: bool)
        ensures
            yes == (self.row_size != 0 && self.grid@.len() as int / self.row_size as int
                == GRID_ROWS_MAX),
    {
        self.rows() == GRID_ROWS_MAX as usize
    }

    /// The number of whole rows.
    pub fn rows(&self) -> (rows: usize)
        ensures
            rows == (if self.row_size == 0 { 0 } else { self.grid@.len() as int / self.row_size as int }),
    {
        if self.row_size == 0 {
            0
        } else {
            self.grid.len() / (self.row_size as usize)
        }
    }
}

} // verus!
