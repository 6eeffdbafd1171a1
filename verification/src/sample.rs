//! A sample: one sound file of the catalog, as the grid and the presets hold it.

use vstd::prelude::*;
use vstd::string::*;
use vstd::std_specs::cmp::PartialEqSpecImpl;
use crate::order::{bytes_le, lemma_bytes_le_total, lemma_bytes_le_transitive, spec_bytes_le, Ranked};
use crate::shared::{get_category_by_str, spec_category_by_str, Category};

verus! {

/// Directory under which the sound files are served.
pub const SOUND_LIB_PATH: &'static str = "/public/sounds/";

/// Where the catalog of the sound files is served.
pub const SOUND_LIB_JSON_PATH: &'static str = "/public/sounds/lib.json";

/// One sound file. A sample never changes once it is made.
#[derive(Debug)]
pub struct Sample {
    /// The category's directory, an underscore and the file stem.
    pub id: String,
    /// The file stem.
    pub filename: String,
    /// Path under which the file is served.
    pub filepath: String,
    pub category: Category,
    /// Playing time in microseconds.
    pub duration_us: u64,
}

impl Clone for Sample {
    fn clone(&self) -> (copy: Self)
        ensures
            copy == *self,
    {
        Sample {
            id: self.id.clone(),
            filename: self.filename.clone(),
            filepath: self.filepath.clone(),
            category: self.category,
            duration_us: self.duration_us,
        }
    }
}

/// Two samples are the same sample when their file stems are equal.
impl PartialEq for Sample {
    fn eq(&self, other: &Self) -> (same: bool) {
        self.filename == other.filename
    }
}

impl PartialEqSpecImpl for Sample {
    open spec fn obeys_eq_spec() -> bool {
        true
    }

    open spec fn eq_spec(&self, other: &Self) -> bool {
        self.filename@ == other.filename@
    }
}

impl Eq for Sample {}

/// Samples are ordered by their file stems, and those as texts are: byte by
/// byte in their UTF-8 form.
impl Ranked for Sample {
    open spec fn at_most(&self, other: &Self) -> bool {
        spec_bytes_le(
            vstd::utf8::encode_utf8(self.filename@),
            vstd::utf8::encode_utf8(other.filename@),
        )
    }

    proof fn lemma_total(a: &Self, b: &Self) {
        lemma_bytes_le_total(
            vstd::utf8::encode_utf8(a.filename@),
            vstd::utf8::encode_utf8(b.filename@),
        );
    }

    proof fn lemma_transitive(a: &Self, b: &Self, c: &Self) {
        lemma_bytes_le_transitive(
            vstd::utf8::encode_utf8(a.filename@),
            vstd::utf8::encode_utf8(b.filename@),
            vstd::utf8::encode_utf8(c.filename@),
        );
    }

    fn may_precede(&self, other: &Self) -> (yes: bool) {
        bytes_le(self.filename.as_str().as_bytes(), other.filename.as_str().as_bytes())
    }
}

/// The identifier of the file `stem` in the directory `dir`.
pub open spec fn spec_sample_id(dir: Seq<char>, stem: Seq<char>) -> Seq<char> {
    dir + "_"@ + stem
}

/// The path under which the file `stem` of the directory `dir` is served.
pub open spec fn spec_sample_path(dir: Seq<char>, stem: Seq<char>) -> Seq<char> {
    SOUND_LIB_PATH@ + dir + "/"@ + stem + ".mp3"@
}

impl Sample {
    /// The catalog entry of the file `stem` found in the directory `dir_name`.
    pub fn from_file(dir_name: &str, stem: &str, duration_us: u64) -> (sample: Sample)
        ensures
            sample.id@ == spec_sample_id(dir_name@, stem@),
            sample.filename@ == stem@,
            sample.filepath@ == spec_sample_path(dir_name@, stem@),
            sample.category == spec_category_by_str(dir_name@),
            sample.duration_us == duration_us,
    {
        let mut id = String::from_str(dir_name);
        id.append("_");
        id.append(stem);
        let mut filepath = String::from_str(SOUND_LIB_PATH);
        filepath.append(dir_name);
        filepath.append("/");
        filepath.append(stem);
        filepath.append(".mp3");
        Sample {
            id,
            filename: String::from_str(stem),
            filepath,
            category: get_category_by_str(dir_name),
            duration_us,
        }
    }

    /// Whether `s` is the sample that a fresh grid is seeded with.
    pub open spec fn is_seed(s: Sample) -> bool {
        &&& s.id@ == "boom_hit_1"@
        &&& s.filename@ == "hit_1"@
        &&& s.filepath@ == "/public/sounds/boom/hit_1.mp3"@
        &&& s.category == Category::Boom
        &&& s.duration_us == 325_670
    }

    /// The sample that a fresh grid is seeded with.
    pub fn seed() -> (sample: Sample)
        ensures
            Sample::is_seed(sample),
    {
        let sample = Sample::from_file("boom", "hit_1", 325_670);
        proof {
            reveal_strlit("boom");
            reveal_strlit("hit_1");
            reveal_strlit("_");
            reveal_strlit("/");
            reveal_strlit(".mp3");
            reveal_strlit("/public/sounds/");
            reveal_strlit("boom_hit_1");
            reveal_strlit("/public/sounds/boom/hit_1.mp3");
            assert(sample.id@ =~= "boom_hit_1"@);
            assert(sample.filepath@ =~= "/public/sounds/boom/hit_1.mp3"@);
        }
        sample
    }
}

} // verus!
