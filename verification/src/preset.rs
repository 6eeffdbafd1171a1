//! Presets: named snapshots of the playback settings and the grid.

use vstd::prelude::*;
use vstd::string::*;
use vstd::std_specs::cmp::PartialEqSpecImpl;
use crate::chance::{random_alphanumeric, spec_is_alphanumeric};
use crate::clock::utc_stamp;
use crate::grid::{clone_grid, filled_cells, spec_filled};
use crate::shared::Category;
use crate::text::push_char;
use crate::order::{sort_stable, spec_sort, Ranked};
use crate::sample::Sample;
use crate::sequencer::{Sequencer, SequencerState};
use crate::text::{spec_starts_with, starts_with, str_eq};

verus! {

/// Number of random characters in a preset's identifier.
pub const PRESET_ID_SUFFIX_LEN: usize = 4;

/// A saved configuration. It never changes once it is made.
#[derive(Debug)]
pub struct Preset {
    /// `preset_` and four random letters or digits.
    pub id: String,
    pub name: String,
    /// Volume in percent.
    pub volume: u8,
    /// Silence between two steps, in milliseconds.
    pub gap_duration: u64,
    pub random_playback: bool,
    pub grid_data: Vec<Option<Sample>>,
    /// When the preset was made: microseconds since the start of 1970 in
    /// universal time.
    pub created: i64,
}

/// A preset as a mathematical value.
pub struct PresetView {
    pub id: Seq<char>,
    pub name: Seq<char>,
    pub volume: int,
    pub gap_duration: int,
    pub random_playback: bool,
    pub grid_data: Seq<Option<Sample>>,
    pub created: int,
}

impl View for Preset {
    type V = PresetView;

    open spec fn view(&self) -> PresetView {
        PresetView {
            id: self.id@,
            name: self.name@,
            volume: self.volume as int,
            gap_duration: self.gap_duration as int,
            random_playback: self.random_playback,
            grid_data: self.grid_data@,
            created: self.created as int,
        }
    }
}

impl Clone for Preset {
    fn clone(&self) -> (copy: Self)
        ensures
            copy@ == self@,
    {
        Preset {
            id: self.id.clone(),
            name: self.name.clone(),
            volume: self.volume,
            gap_duration: self.gap_duration,
            random_playback: self.random_playback,
            grid_data: clone_grid(&self.grid_data),
            created: self.created,
        }
    }
}

/// Two presets are the same preset when they were made at the same instant.
impl PartialEq for Preset {
    fn eq(&self, other: &Self) -> (same: bool) {
        self.created == other.created
    }
}

impl PartialEqSpecImpl for Preset {
    open spec fn obeys_eq_spec() -> bool {
        true
    }

    open spec fn eq_spec(&self, other: &Self) -> bool {
        self.created == other.created
    }
}

impl Eq for Preset {}

/// Presets are ordered by the instant at which they were made.
impl Ranked for Preset {
    open spec fn at_most(&self, other: &Self) -> bool {
        self.created <= other.created
    }

    proof fn lemma_total(a: &Self, b: &Self) {
    }

    proof fn lemma_transitive(a: &Self, b: &Self, c: &Self) {
    }

    fn may_precede(&self, other: &Self) -> (yes: bool) {
        self.created <= other.created
    }
}

/// The identifier of a preset with the random part `suffix`.
pub open spec fn spec_preset_id(suffix: Seq<char>) -> Seq<char> {
    "preset_"@ + suffix
}

/// The name of a preset that was saved without one at the instant that
/// `stamp` writes out.
pub open spec fn spec_default_name(stamp: Seq<char>) -> Seq<char> {
    "Preset "@ + stamp
}

/// The preset that captures the sequencer's settings and grid.
pub open spec fn spec_capture(
    state: SequencerState,
    name: Seq<char>,
    suffix: Seq<char>,
    stamp: Seq<char>,
    created: int,
) -> PresetView {
    PresetView {
        id: spec_preset_id(suffix),
        name: if name.len() == 0 {
            spec_default_name(stamp)
        } else {
            name
        },
        volume: state.volume,
        gap_duration: state.gap_ms,
        random_playback: state.random,
        grid_data: state.grid,
        created,
    }
}

/// Loading a preset that was captured from a sequencer brings back the gap,
/// the volume, the random flag and the grid that the sequencer had then,
/// whatever became of them since. Whether the sequencer plays is not
/// touched.
pub proof fn lemma_capture_then_load(
    then: SequencerState,
    since: SequencerState,
    name: Seq<char>,
    suffix: Seq<char>,
    stamp: Seq<char>,
    created: int,
)
    ensures
        ({
            let after = since.load(spec_capture(then, name, suffix, stamp, created)).0;
            &&& after.gap_ms == then.gap_ms
            &&& after.volume == then.volume
            &&& after.random == then.random
            &&& after.grid == then.grid
            &&& after.playing == since.playing
        }),
{
}

/// Whether a key of the store is the key of a preset.
pub open spec fn spec_is_preset_key(key: Seq<char>) -> bool {
    spec_starts_with(key, "preset_"@)
}

/// Decides whether a key of the store is the key of a preset.
pub fn is_preset_key(key: &str) -> (yes: bool)
    ensures
        yes == spec_is_preset_key(key@),
{
    starts_with(key, "preset_")
}

/// The keys of presets among the keys of the store, in the store's order.
pub fn preset_keys(keys: &Vec<String>) -> (found: Vec<String>)
    ensures
        found@.map_values(|k: String| k@) == keys@.map_values(|k: String| k@).filter(
            |k: Seq<char>| spec_is_preset_key(k),
        ),
{
    let ghost texts = keys@.map_values(|k: String| k@);
    let ghost wanted = |k: Seq<char>| spec_is_preset_key(k);
    let mut found: Vec<String> = Vec::new();
    let mut i: usize = 0;
    proof {
        reveal(Seq::filter);
        assert(texts.subrange(0, 0) =~= Seq::<Seq<char>>::empty());
    }
    while i < keys.len()
        invariant
            i <= keys.len(),
            texts == keys@.map_values(|k: String| k@),
            wanted == |k: Seq<char>| spec_is_preset_key(k),
            found@.map_values(|k: String| k@) == texts.subrange(0, i as int).filter(wanted),
        decreases keys.len() - i,
    {
        let ghost before = found@;
        let is_preset = is_preset_key(keys[i].as_str());
        if is_preset {
            let key = keys[i].clone();
            found.push(key);
        }
        proof {
            reveal(Seq::filter);
            let longer = texts.subrange(0, i + 1);
            assert(longer.drop_last() =~= texts.subrange(0, i as int));
            assert(longer.last() == keys@[i as int]@);
            if is_preset {
                assert(found@.map_values(|k: String| k@) =~= before.map_values(|k: String| k@).push(
                    keys@[i as int]@,
                ));
            }
        }
        i += 1;
    }
    assert(texts.subrange(0, keys@.len() as int) =~= texts);
    found
}

/// Whether some cell of the grid holds a sample of the category.
pub open spec fn spec_has_category(grid: Seq<Option<Sample>>, category: Category) -> bool {
    exists|i: int| 0 <= i < grid.len() && spec_cell_is(#[trigger] grid[i], category)
}

/// Whether the cell holds a sample of the category.
pub open spec fn spec_cell_is(cell: Option<Sample>, category: Category) -> bool {
    cell matches Some(s) && s.category == category
}

/// The glyph of the category if the grid holds a sample of it, else nothing.
pub open spec fn spec_glyph_if_present(grid: Seq<Option<Sample>>, category: Category) -> Seq<char> {
    if spec_has_category(grid, category) {
        seq![category.spec_emoji()]
    } else {
        Seq::empty()
    }
}

/// The glyphs of the categories that the grid holds samples of, each once,
/// in the order of their code points.
pub open spec fn spec_category_emojis(grid: Seq<Option<Sample>>) -> Seq<char> {
    spec_glyph_if_present(grid, Category::Boom) + spec_glyph_if_present(grid, Category::Eerie)
        + spec_glyph_if_present(grid, Category::Construction) + spec_glyph_if_present(
        grid,
        Category::Doors,
    ) + spec_glyph_if_present(grid, Category::People)
}

/// Decides whether some cell of the grid holds a sample of the category.
pub fn has_category(grid: &Vec<Option<Sample>>, category: Category) -> (yes: bool)
    ensures
        yes == spec_has_category(grid@, category),
{
    let mut i: usize = 0;
    while i < grid.len()
        invariant
            i <= grid.len(),
            forall|j: int| 0 <= j < i ==> !spec_cell_is(#[trigger] grid@[j], category),
        decreases grid.len() - i,
    {
        let hit = match &grid[i] {
            Some(sample) => sample.category == category,
            None => false,
        };
        if hit {
            assert(spec_cell_is(grid@[i as int], category));
            return true;
        }
        i += 1;
    }
    false
}

/// The glyphs are listed in the strict order of their code points.
pub proof fn lemma_emojis_ascend(grid: Seq<Option<Sample>>)
    ensures
        forall|i: int, j: int|
            0 <= i < j < spec_category_emojis(grid).len() ==> (spec_category_emojis(grid)[i] as u32) < (
            spec_category_emojis(grid)[j] as u32),
{
    let boom = spec_glyph_if_present(grid, Category::Boom);
    let eerie = spec_glyph_if_present(grid, Category::Eerie);
    let construction = spec_glyph_if_present(grid, Category::Construction);
    let doors = spec_glyph_if_present(grid, Category::Doors);
    let people = spec_glyph_if_present(grid, Category::People);
    let all = spec_category_emojis(grid);
    assert(all == boom + eerie + construction + doors + people);
    assert forall|i: int, j: int| 0 <= i < j < all.len() implies (all[i] as u32) < (all[j] as u32) by {
        let a = boom.len() as int;
        let b = a + eerie.len();
        let c = b + construction.len();
        let d = c + doors.len();
        assert(all[i] == if i < a { boom[i] } else if i < b { eerie[i - a] } else if i < c {
            construction[i - b]
        } else if i < d { doors[i - c] } else { people[i - d] });
        assert(all[j] == if j < a { boom[j] } else if j < b { eerie[j - a] } else if j < c {
            construction[j - b]
        } else if j < d { doors[j - c] } else { people[j - d] });
    }
}

impl Preset {
    /// How many cells of the preset's grid hold a sample.
    pub fn filled_cells(&self) -> (count: usize)
        ensures
            count == spec_filled(self.grid_data@),
    {
        filled_cells(&self.grid_data)
    }

    /// The preset's gap in whole seconds.
    pub fn gap_seconds(&self) -> (seconds: u64)
        ensures
            seconds == self.gap_duration / 1000,
    {
        self.gap_duration / 1000
    }

    /// The glyphs of the categories that the preset's grid holds samples of,
    /// each once, in the order of their code points.
    pub fn category_emojis(&self) -> (glyphs: String)
        ensures
            glyphs@ == spec_category_emojis(self.grid_data@),
    {
        let mut glyphs = String::new();
        if has_category(&self.grid_data, Category::Boom) {
            push_char(&mut glyphs, Category::Boom.get_emoji());
        }
        assert(glyphs@ =~= spec_glyph_if_present(self.grid_data@, Category::Boom));
        if has_category(&self.grid_data, Category::Eerie) {
            push_char(&mut glyphs, Category::Eerie.get_emoji());
        }
        if has_category(&self.grid_data, Category::Construction) {
            push_char(&mut glyphs, Category::Construction.get_emoji());
        }
        if has_category(&self.grid_data, Category::Doors) {
            push_char(&mut glyphs, Category::Doors.get_emoji());
        }
        if has_category(&self.grid_data, Category::People) {
            push_char(&mut glyphs, Category::People.get_emoji());
        }
        assert(glyphs@ =~= spec_category_emojis(self.grid_data@));
        glyphs
    }

    /// The preset that captures the sequencer's settings and grid under the
    /// given name. Without a name the preset is called after `stamp`.
    pub fn capture(seq: &Sequencer, name: String, suffix: &str, stamp: &str, created: i64) -> (preset: Preset)
        ensures
            preset@ == spec_capture(seq@, name@, suffix@, stamp@, created as int),
    {
        let mut id = String::from_str("preset_");
        id.append(suffix);
        let name = if name.as_str().unicode_len() == 0 {
            let mut auto = String::from_str("Preset ");
            auto.append(stamp);
            auto
        } else {
            name
        };
        Preset {
            id,
            name,
            volume: seq.volume,
            gap_duration: seq.gap_ms,
            random_playback: seq.random,
            grid_data: clone_grid(&seq.grid),
            created,
        }
    }
}

/// Whether `preset` is a capture of the sequencer under `name`, with some
/// random part in its identifier and made at some instant.
pub open spec fn spec_is_capture(state: SequencerState, name: Seq<char>, preset: PresetView) -> bool {
    &&& preset == spec_capture(state, name, preset.id.skip(7), preset.name.skip(7), preset.created)
    &&& preset.id.len() == 7 + PRESET_ID_SUFFIX_LEN
    &&& forall|i: int| 7 <= i < preset.id.len() ==> spec_is_alphanumeric(#[trigger] preset.id[i])
}

/// The presets that were saved, in the order of saving.
#[derive(Debug)]
pub struct PresetList {
    pub presets: Vec<Preset>,
}

impl PresetList {
    /// No presets.
    pub fn new() -> (list: PresetList)
        ensures
            list.presets@.len() == 0,
    {
        PresetList { presets: Vec::new() }
    }

    /// The presets found in the store, put in the order in which they were
    /// made. Presets made at the same instant keep the order in which they
    /// were found.
    pub fn restore(found: Vec<Preset>) -> (list: PresetList)
        ensures
            list.presets@ == spec_sort(found@),
    {
        PresetList { presets: sort_stable(found) }
    }

    /// Captures the sequencer's settings and grid in a new preset, gives it a
    /// fresh identifier and, where `name` is empty, a name after the current
    /// date and time, and appends it. Returns a copy for the store.
    pub fn save(&mut self, name: String, seq: &Sequencer) -> (saved: Preset)
        ensures
            final(self).presets@.len() == old(self).presets@.len() + 1,
            final(self).presets@.drop_last() == old(self).presets@,
            final(self).presets@.last()@ == saved@,
            spec_is_capture(seq@, name@, saved@),
    {
        let suffix = random_alphanumeric(PRESET_ID_SUFFIX_LEN);
        let stamp = utc_stamp();
        let preset = Preset::capture(seq, name, suffix.as_str(), stamp.1.as_str(), stamp.0);
        proof {
            reveal_strlit("preset_");
            reveal_strlit("Preset ");
            assert(preset@.id.skip(7) =~= suffix@);
            if name@.len() == 0 {
                assert(preset@.name.skip(7) =~= stamp.1@);
            }
        }
        let saved = preset.clone();
        let ghost before = self.presets@;
        self.presets.push(preset);
        assert(self.presets@.drop_last() =~= before);
        saved
    }

    /// Removes every preset with the identifier `id`.
    pub fn delete(&mut self, id: &str)
        ensures
            final(self).presets@ == old(self).presets@.filter(|p: Preset| p.id@ != id@),
    {
        let mut kept: Vec<Preset> = Vec::new();
        let ghost all = self.presets@;
        let ghost others = |p: Preset| p.id@ != id@;
        let ghost mut taken: int = 0;
        proof {
            reveal(Seq::filter);
            assert(all.subrange(0, 0) =~= Seq::<Preset>::empty());
        }
        while self.presets.len() > 0
            invariant
                0 <= taken <= all.len(),
                others == |p: Preset| p.id@ != id@,
                self.presets@ == all.subrange(taken, all.len() as int),
                kept@ == all.subrange(0, taken).filter(others),
            decreases self.presets.len(),
        {
            let preset = self.presets.remove(0);
            assert(preset == all[taken]);
            proof {
                reveal(Seq::filter);
                let longer = all.subrange(0, taken + 1);
                assert(longer.drop_last() =~= all.subrange(0, taken));
                assert(longer.last() == preset);
            }
            if !str_eq(preset.id.as_str(), id) {
                kept.push(preset);
            }
            proof {
                taken = taken + 1;
            }
            assert(self.presets@ =~= all.subrange(taken, all.len() as int));
        }
        assert(all.subrange(0, all.len() as int) =~= all);
        self.presets = kept;
    }

    /// The first preset with the identifier `id`.
    pub fn find(&self, id: &str) -> (found: Option<&Preset>)
        ensures
            found is None <==> forall|i: int|
                0 <= i < self.presets@.len() ==> (#[trigger] self.presets@[i]).id@ != id@,
            found matches Some(p) ==> exists|at: int|
                {
                    &&& 0 <= at < self.presets@.len()
                    &&& *p == #[trigger] self.presets@[at]
                    &&& p.id@ == id@
                    &&& forall|j: int| 0 <= j < at ==> (#[trigger] self.presets@[j]).id@ != id@
                },
    {
        let mut i: usize = 0;
        while i < self.presets.len()
            invariant
                i <= self.presets.len(),
                forall|j: int| 0 <= j < i ==> (#[trigger] self.presets@[j]).id@ != id@,
            decreases self.presets.len() - i,
        {
            if str_eq(self.presets[i].id.as_str(), id) {
                return Some(&self.presets[i]);
            }
            i += 1;
        }
        None
    }
}

} // verus!
