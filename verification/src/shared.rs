//! Constants and small value types shared by every component.

use vstd::prelude::*;
use vstd::string::*;
use crate::text::str_eq;

verus! {

/// Fewest rows a grid may have.
pub const GRID_ROWS_MIN: u16 = 1;

/// Most rows a grid may have.
pub const GRID_ROWS_MAX: u16 = 20;

/// Gap of a first start, in milliseconds.
pub const DEFAULT_GAP_MS: u64 = 1000;

/// Volume of a first start, in percent.
pub const DEFAULT_VOLUME: u8 = 100;

/// Direction of a stepwise adjustment (grid rows, gap duration).
#[derive(Debug, Clone, Copy, PartialEq, Eq, Structural)]
pub enum Operation {
    Inc,
    Dec,
}

/// Which of the two schedule lists drives the scheduler.
#[derive(Debug, Clone, Copy, PartialEq, Eq, Structural)]
pub enum ScheduleType {
    Planned,
    Reccuring,
}

impl ScheduleType {
    /// The list that a tab of the schedule view stands for: the planned one
    /// for the tab named `Planned`, the recurring one for any other.
    pub fn from_tab(tab: &str) -> (kind: ScheduleType)
        ensures
            kind == (if tab@ == "Planned"@ {
                ScheduleType::Planned
            } else {
                ScheduleType::Reccuring
            }),
    {
        if str_eq(tab, "Planned") {
            ScheduleType::Planned
        } else {
            ScheduleType::Reccuring
        }
    }
}

/// Number of cells in one grid row: four on touch devices, six elsewhere.
pub open spec fn spec_grid_row_size(mobile: bool) -> u16 {
    if mobile { 4 } else { 6 }
}

/// Number of cells in one grid row for the given kind of device.
pub fn grid_row_size(mobile: bool) -> (size: u16)
    ensures
        size == spec_grid_row_size(mobile),
{
    if mobile {
        4
    } else {
        6
    }
}

/// The kinds of sound a sample can belong to.
#[derive(Debug, Clone, Copy, PartialEq, Eq, Hash, Structural)]
pub enum Category {
    Boom,
    Doors,
    People,
    Construction,
    Eerie,
}

impl Category {
    /// The lower-case name under which the category is stored and shown.
    pub open spec fn spec_name(self) -> Seq<char> {
        match self {
            Category::Boom => "boom"@,
            Category::Doors => "doors"@,
            Category::People => "people"@,
            Category::Construction => "construction"@,
            Category::Eerie => "eerie"@,
        }
    }

    /// The glyph that stands for the category in listings.
    pub open spec fn spec_emoji(self) -> char {
        match self {
            Category::Boom => '\u{1F3C0}',
            Category::Doors => '\u{1F6AA}',
            Category::People => '\u{1F926}',
            Category::Construction => '\u{1F528}',
            Category::Eerie => '\u{1F47B}',
        }
    }

    /// Every category, in the order in which listings show them.
    pub open spec fn spec_all() -> Seq<Category> {
        seq![
            Category::Boom,
            Category::Doors,
            Category::People,
            Category::Construction,
            Category::Eerie,
        ]
    }

    pub fn get_emoji(&self) -> (glyph: char)
        ensures
            glyph == self.spec_emoji(),
    {
        match self {
            Category::Boom => '\u{1F3C0}',
            Category::Doors => '\u{1F6AA}',
            Category::People => '\u{1F926}',
            Category::Construction => '\u{1F528}',
            Category::Eerie => '\u{1F47B}',
        }
    }

    pub fn iter() -> (all: Vec<Category>)
        ensures
            all@ == Category::spec_all(),
    {
        let mut all: Vec<Category> = Vec::new();
        all.push(Category::Boom);
        all.push(Category::Doors);
        all.push(Category::People);
        all.push(Category::Construction);
        all.push(Category::Eerie);
        all
    }

    /// The category's name as an owned string.
    pub fn to_string(&self) -> (name: String)
        ensures
            name@ == self.spec_name(),
    {
        match self {
            Category::Boom => "boom".to_owned(),
            Category::Doors => "doors".to_owned(),
            Category::People => "people".to_owned(),
            Category::Construction => "construction".to_owned(),
            Category::Eerie => "eerie".to_owned(),
        }
    }

    /// The category that a name stands for, if it is the name of one.
    pub open spec fn spec_from_name(name: Seq<char>) -> Option<Category> {
        if name == "boom"@ {
            Some(Category::Boom)
        } else if name == "doors"@ {
            Some(Category::Doors)
        } else if name == "people"@ {
            Some(Category::People)
        } else if name == "construction"@ {
            Some(Category::Construction)
        } else if name == "eerie"@ {
            Some(Category::Eerie)
        } else {
            None
        }
    }

    /// Reads a category from its lower-case name; any other text is refused.
    pub fn from_str(v: &str) -> (parsed: Result<Category, ()>)
        ensures
            parsed == match Category::spec_from_name(v@) {
                Some(c) => Ok::<Category, ()>(c),
                None => Err::<Category, ()>(()),
            },
    {
        if str_eq(v, "boom") {
            Ok(Category::Boom)
        } else if str_eq(v, "doors") {
            Ok(Category::Doors)
        } else if str_eq(v, "people") {
            Ok(Category::People)
        } else if str_eq(v, "construction") {
            Ok(Category::Construction)
        } else if str_eq(v, "eerie") {
            Ok(Category::Eerie)
        } else {
            Err(())
        }
    }

    /// Reading a category's own name gives the category back.
    pub proof fn lemma_name_round_trip(c: Category)
        ensures
            Category::spec_from_name(c.spec_name()) == Some(c),
    {
        reveal_strlit("boom");
        reveal_strlit("doors");
        reveal_strlit("people");
        reveal_strlit("construction");
        reveal_strlit("eerie");
        assert("boom"@.len() == 4 && "doors"@.len() == 5 && "people"@.len() == 6);
        assert("construction"@.len() == 12 && "eerie"@.len() == 5);
        assert("doors"@[0] == 'd' && "eerie"@[0] == 'e');
    }
}

/// The category of a sound directory: the one the directory is named after,
/// and `Boom` for a directory named after none.
pub open spec fn spec_category_by_str(s: Seq<char>) -> Category {
    match Category::spec_from_name(s) {
        Some(c) => c,
        None => Category::Boom,
    }
}

/// The category of a sound directory, `Boom` where the name is unknown.
pub fn get_category_by_str(s: &str) -> (category: Category)
    ensures
        category == spec_category_by_str(s@),
{
    match Category::from_str(s) {
        Ok(c) => c,
        Err(_) => Category::Boom,
    }
}

} // verus!
