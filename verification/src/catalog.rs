//! The sample catalog: for each category the samples that can be put into
//! the grid.

use vstd::prelude::*;
use crate::order::{sort_stable, spec_sort};
use crate::sample::Sample;
use crate::shared::Category;
use crate::text::str_eq;

verus! {

/// The catalog. A category is either absent or holds a list of samples.
#[derive(Debug)]
pub struct Catalog {
    pub boom: Option<Vec<Sample>>,
    pub doors: Option<Vec<Sample>>,
    pub people: Option<Vec<Sample>>,
    pub construction: Option<Vec<Sample>>,
    pub eerie: Option<Vec<Sample>>,
}

impl View for Catalog {
    type V = Map<Category, Seq<Sample>>;

    open spec fn view(&self) -> Map<Category, Seq<Sample>> {
        Map::new(
            |c: Category| self.spec_slot(c) is Some,
            |c: Category| self.spec_slot(c).unwrap()@,
        )
    }
}

/// Position of the first sample with the identifier `id`, if there is one.
pub open spec fn spec_is_first_with_id(samples: Seq<Sample>, id: Seq<char>, at: int) -> bool {
    &&& 0 <= at < samples.len()
    &&& samples[at].id@ == id
    &&& forall|j: int| 0 <= j < at ==> (#[trigger] samples[j]).id@ != id
}

/// The first sample of the list with the identifier `id`.
pub fn find_sample<'a>(samples: &'a Vec<Sample>, id: &str) -> (found: Option<&'a Sample>)
    ensures
        found is None <==> forall|j: int| 0 <= j < samples@.len() ==> (#[trigger] samples@[j]).id@ != id@,
        found matches Some(s) ==> exists|at: int|
            spec_is_first_with_id(samples@, id@, at) && *s == #[trigger] samples@[at],
{
    let mut i: usize = 0;
    while i < samples.len()
        invariant
            i <= samples.len(),
            forall|j: int| 0 <= j < i ==> (#[trigger] samples@[j]).id@ != id@,
        decreases samples.len() - i,
    {
        if str_eq(samples[i].id.as_str(), id) {
            assert(spec_is_first_with_id(samples@, id@, i as int));
            return Some(&samples[i]);
        }
        i += 1;
    }
    None
}

impl Catalog {
    /// The list kept for a category.
    pub open spec fn spec_slot(self, category: Category) -> Option<Vec<Sample>> {
        match category {
            Category::Boom => self.boom,
            Category::Doors => self.doors,
            Category::People => self.people,
            Category::Construction => self.construction,
            Category::Eerie => self.eerie,
        }
    }

    /// A catalog without any category.
    pub fn new() -> (catalog: Catalog)
        ensures
            catalog@ == Map::<Category, Seq<Sample>>::empty(),
    {
        let catalog = Catalog { boom: None, doors: None, people: None, construction: None, eerie: None };
        assert(catalog@ =~= Map::<Category, Seq<Sample>>::empty());
        catalog
    }

    /// Gives the category this list, in place of any list it had.
    pub fn insert(&mut self, category: Category, samples: Vec<Sample>)
        ensures
            final(self)@ == old(self)@.insert(category, samples@),
    {
        match category {
            Category::Boom => self.boom = Some(samples),
            Category::Doors => self.doors = Some(samples),
            Category::People => self.people = Some(samples),
            Category::Construction => self.construction = Some(samples),
            Category::Eerie => self.eerie = Some(samples),
        }
        assert(self@ =~= old(self)@.insert(category, samples@));
    }

    /// The list of a category.
    pub fn get(&self, category: Category) -> (samples: Option<&Vec<Sample>>)
        ensures
            samples is Some == self@.contains_key(category),
            samples matches Some(list) ==> list@ == self@[category],
    {
        match category {
            Category::Boom => self.boom.as_ref(),
            Category::Doors => self.doors.as_ref(),
            Category::People => self.people.as_ref(),
            Category::Construction => self.construction.as_ref(),
            Category::Eerie => self.eerie.as_ref(),
        }
    }

    /// Appends a sample to the list of its category. A sample whose category
    /// is absent is refused and the catalog left as it is.
    pub fn push(&mut self, sample: Sample) -> (taken: bool)
        ensures
            taken == old(self)@.contains_key(sample.category),
            taken ==> final(self)@ == old(self)@.insert(
                sample.category,
                old(self)@[sample.category].push(sample),
            ),
            !taken ==> final(self)@ == old(self)@,
    {
        let category = sample.category;
        let list = match category {
            Category::Boom => self.boom.take(),
            Category::Doors => self.doors.take(),
            Category::People => self.people.take(),
            Category::Construction => self.construction.take(),
            Category::Eerie => self.eerie.take(),
        };
        match list {
            Some(mut samples) => {
                samples.push(sample);
                self.insert(category, samples);
                assert(self@ =~= old(self)@.insert(category, old(self)@[category].push(sample)));
                true
            },
            None => {
                assert(self@ =~= old(self)@);
                false
            },
        }
    }

    /// Puts the list of every category in the order of the file stems.
    /// Samples with the same stem keep the order in which they came.
    pub fn sort(&mut self)
        ensures
            final(self)@.dom() == old(self)@.dom(),
            forall|c: Category| #[trigger]
                old(self)@.contains_key(c) ==> final(self)@[c] == spec_sort(old(self)@[c]),
    {
        self.boom = match self.boom.take() {
            Some(list) => Some(sort_stable(list)),
            None => None,
        };
        self.doors = match self.doors.take() {
            Some(list) => Some(sort_stable(list)),
            None => None,
        };
        self.people = match self.people.take() {
            Some(list) => Some(sort_stable(list)),
            None => None,
        };
        self.construction = match self.construction.take() {
            Some(list) => Some(sort_stable(list)),
            None => None,
        };
        self.eerie = match self.eerie.take() {
            Some(list) => Some(sort_stable(list)),
            None => None,
        };
        assert(self@.dom() =~= old(self)@.dom());
    }

    /// The sample that a choice in the library stands for: the first sample
    /// with the identifier `sample_id` in the category named
    /// `category_name`. There is none where the name is no category's, the
    /// category is absent, or no sample has the identifier.
    pub fn find(&self, category_name: &str, sample_id: &str) -> (found: Option<Sample>)
        ensures
            found matches Some(s) ==> {
                &&& Category::spec_from_name(category_name@) matches Some(c)
                &&& self@.contains_key(c)
                &&& exists|at: int|
                    spec_is_first_with_id(self@[c], sample_id@, at) && s == #[trigger] self@[c][at]
            },
            found is None ==> match Category::spec_from_name(category_name@) {
                Some(c) => self@.contains_key(c) ==> forall|j: int|
                    0 <= j < self@[c].len() ==> (#[trigger] self@[c][j]).id@ != sample_id@,
                None => true,
            },
    {
        match Category::from_str(category_name) {
            Ok(category) => match self.get(category) {
                Some(samples) => match find_sample(samples, sample_id) {
                    Some(sample) => Some(sample.clone()),
                    None => None,
                },
                None => None,
            },
            Err(_) => None,
        }
    }
}

} // verus!
