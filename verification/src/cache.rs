//! The per-class store of extracted annotation rows.
//!
//! A class is known by its name, never by a runtime handle. Nothing is ever
//! evicted. The cache is a plain value: whoever shares it between threads
//! wraps it in a lock and holds that lock for one lookup or one insert only.

use vstd::prelude::*;
use vstd::hash_map::StringHashMap;
use crate::text::clone_rows;

verus! {

/// Class name to the rows that were extracted for the class.
pub struct AnnotationCache {
    rows_by_class: StringHashMap<Vec<Vec<String>>>,
}

impl View for AnnotationCache {
    type V = Map<Seq<char>, Seq<Seq<Seq<char>>>>;

    closed spec fn view(&self) -> Self::V {
        self.rows_by_class@.map_values(|rows: Vec<Vec<String>>| rows.deep_view())
    }
}

impl AnnotationCache {
    /// A cache that knows no class.
    pub fn new() -> (cache: Self)
        ensures
            cache@ == Map::<Seq<char>, Seq<Seq<Seq<char>>>>::empty(),
    {
        let cache = AnnotationCache { rows_by_class: StringHashMap::new() };
        proof {
            assert(cache@ =~= Map::<Seq<char>, Seq<Seq<Seq<char>>>>::empty());
        }
        cache
    }

    /// How many classes the cache knows.
    pub fn len(&self) -> (n: usize)
        ensures
            n == self@.dom().len(),
    {
        proof {
            assert(self@.dom() =~= self.rows_by_class@.dom());
        }
        self.rows_by_class.len()
    }
}

/// Stores `annotation_data` for `class_name`, in place of whatever the cache
/// held for that class; every other class keeps its rows.
pub fn insert_annotation_data(
    cache: &mut AnnotationCache,
    class_name: String,
    annotation_data: Vec<Vec<String>>,
)
    ensures
        final(cache)@ == old(cache)@.insert(class_name@, annotation_data.deep_view()),
{
    let ghost key = class_name@;
    let ghost rows = annotation_data.deep_view();
    cache.rows_by_class.insert(class_name, annotation_data);
    proof {
        assert(cache@ =~= old(cache)@.insert(key, rows));
    }
}

/// A copy of the rows stored for `class_name`, if the cache knows the class.
/// The cache is left as it was.
pub fn get_annotation_data(cache: &AnnotationCache, class_name: &str) -> (found: Option<
    Vec<Vec<String>>,
>)
    ensures
        match found {
            Some(rows) => cache@.contains_key(class_name@) && rows.deep_view() == cache@[class_name@],
            None => !cache@.contains_key(class_name@),
        },
{
    match cache.rows_by_class.get(class_name) {
        Some(rows) => Some(clone_rows(rows)),
        None => None,
    }
}

} // verus!
