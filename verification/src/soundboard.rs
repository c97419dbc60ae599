//! The rules of the sound library that do not touch the database.

use vstd::prelude::*;
use crate::text::{chars_of, trim_chars, trim_seq};

verus! {

/// Whether a category name is nothing but white space.
pub open spec fn spec_is_blank(name: Seq<char>) -> bool {
    trim_seq(name).len() == 0
}

/// Whether a category name is nothing but white space.
pub fn is_blank(name: &str) -> (blank: bool)
    ensures
        blank == spec_is_blank(name@),
{
    let chars = chars_of(name);
    trim_chars(&chars).len() == 0
}

/// The categories that are stored for a sound: those that are not blank,
/// in the order given.
pub open spec fn spec_stored_categories(categories: Seq<Seq<char>>) -> Seq<Seq<char>> {
    categories.filter(|name: Seq<char>| !spec_is_blank(name))
}

/// Picks the categories that are stored for a sound.
pub fn stored_categories(categories: &Vec<String>) -> (stored: Vec<String>)
    ensures
        stored@.map_values(|s: String| s@) == spec_stored_categories(
            categories@.map_values(|s: String| s@),
        ),
{
    let ghost names = categories@.map_values(|s: String| s@);
    let ghost keep = |name: Seq<char>| !spec_is_blank(name);
    let ghost view_of = |s: String| s@;
    let mut stored: Vec<String> = Vec::new();
    let mut i: usize = 0;
    proof {
        reveal(Seq::filter);
        assert(names.take(0).filter(keep) =~= Seq::<Seq<char>>::empty());
        assert(stored@.map_values(view_of) =~= Seq::<Seq<char>>::empty());
    }
    while i < categories.len()
        invariant
            i <= categories.len(),
            names == categories@.map_values(|s: String| s@),
            view_of == (|s: String| s@),
            keep == (|name: Seq<char>| !spec_is_blank(name)),
            stored@.map_values(view_of) == names.take(i as int).filter(keep),
        decreases categories.len() - i,
    {
        let ghost before = stored@;
        proof {
            assert(names.take(i + 1) =~= names.take(i as int).push(names[i as int]));
            names.take(i as int).lemma_filter_push(names[i as int], keep);
            assert(names[i as int] == categories[i as int]@);
        }
        if !is_blank(categories[i].as_str()) {
            stored.push(categories[i].clone());
            proof {
                assert(stored@.map_values(view_of) =~= before.map_values(view_of).push(
                    names[i as int],
                ));
            }
        }
        i = i + 1;
    }
    proof {
        assert(names.take(categories.len() as int) =~= names);
    }
    stored
}

/// The one category that is kept with the sound itself: the first of its
/// categories, if it has any.
pub fn legacy_category(categories: &Vec<String>) -> (category: Option<String>)
    ensures
        match category {
            Some(name) => categories.len() > 0 && name@ == categories[0]@,
            None => categories.len() == 0,
        },
{
    if categories.len() > 0 {
        Some(categories[0].clone())
    } else {
        None
    }
}

} // verus!
