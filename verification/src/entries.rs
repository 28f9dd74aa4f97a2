//! Helpers on entry-name lists: filtering a listing down to supported image
//! names, sorting it into reading order, and looking an entry up by name.

use vstd::prelude::*;
use vstd::utf8::encode_utf8;
use crate::image::Image;
use crate::natural::{name_views, natural_sorted, sort_natural};

verus! {

/// Predicate form of `Image::spec_supported_image_name` over a name's
/// characters.
pub open spec fn image_cname_pred() -> spec_fn(Seq<char>) -> bool {
    |n: Seq<char>| Image::spec_supported_image_name(encode_utf8(n))
}

/// Whether some entry of the list has exactly the characters of `name`.
pub open spec fn has_name(entries: Seq<String>, name: Seq<char>) -> bool {
    exists|i: int| 0 <= i < entries.len() && #[trigger] entries[i]@ == name
}

/// Position of the first entry with the characters of `name`; the list's
/// length where none has them.
pub open spec fn first_idx(entries: Seq<String>, name: Seq<char>) -> int
    decreases entries.len(),
{
    if entries.len() == 0 {
        0
    } else if entries[0]@ == name {
        0
    } else {
        1 + first_idx(entries.drop_first(), name)
    }
}

/// `first_idx` points at the first occurrence of `name`, and past the end
/// where there is none.
pub proof fn lemma_first_idx(entries: Seq<String>, name: Seq<char>)
    ensures
        has_name(entries, name) ==> 0 <= first_idx(entries, name) < entries.len() && entries[
            first_idx(entries, name)
        ]@ == name && forall|k: int|
            0 <= k < first_idx(entries, name) ==> (#[trigger] entries[k])@ != name,
        !has_name(entries, name) ==> first_idx(entries, name) == entries.len(),
    decreases entries.len(),
{
    if entries.len() == 0 {
    } else if entries[0]@ == name {
    } else {
        lemma_first_idx(entries.drop_first(), name);
        assert forall|i: int|
            0 <= i < entries.len() && (#[trigger] entries[i])@ == name implies has_name(
            entries.drop_first(),
            name,
        ) by {
            assert(entries.drop_first()[i - 1]@ == name);
        }
        if has_name(entries, name) {
            let i = choose|i: int| 0 <= i < entries.len() && #[trigger] entries[i]@ == name;
            assert(has_name(entries.drop_first(), name));
            assert forall|k: int|
                0 <= k < first_idx(entries, name) implies (#[trigger] entries[k])@ != name by {
                if k > 0 {
                    assert(entries.drop_first()[k - 1]@ != name);
                }
            }
        } else {
            if has_name(entries.drop_first(), name) {
                let i = choose|i: int|
                    0 <= i < entries.drop_first().len() && #[trigger] entries.drop_first()[i]@
                        == name;
                assert(entries[i + 1]@ == name);
            }
        }
    }
}

/// Keeps the names whose suffix is a supported image format and sorts them
/// into natural order.
pub fn filter_image_names(names: Vec<String>) -> (r: Vec<String>)
    ensures
        name_views(r@).to_multiset() == name_views(names@).filter(image_cname_pred()).to_multiset(),
        natural_sorted(r@),
        forall|i: int|
            0 <= i < r@.len() ==> image_cname_pred()(#[trigger] name_views(r@)[i]),
{
    let ghost nv = name_views(names@);
    let mut kept: Vec<String> = Vec::new();
    let mut i: usize = 0;
    while i < names.len()
        invariant
            0 <= i <= names@.len() == nv.len(),
            nv == name_views(names@),
            name_views(kept@) == nv.take(i as int).filter(image_cname_pred()),
        decreases names@.len() - i,
    {
        proof {
            reveal(Seq::filter);
            assert(nv.take(i + 1).drop_last() =~= nv.take(i as int));
            assert(nv.take(i + 1).last() == names@[i as int]@);
        }
        let name = &names[i];
        let keep = Image::is_supported_format(name.as_str());
        if keep {
            kept.push(name.clone());
        }
        proof {
            if keep {
                assert(name_views(kept@) =~= nv.take(i as int).filter(image_cname_pred()).push(
                    names@[i as int]@,
                ));
            }
        }
        i = i + 1;
    }
    proof {
        assert(nv.take(nv.len() as int) =~= nv);
    }
    let sorted = sort_natural(kept);
    proof {
        broadcast use vstd::seq_lib::group_to_multiset_ensures;

        let sv = name_views(sorted@);
        let fv = nv.filter(image_cname_pred());
        assert forall|i: int| 0 <= i < sorted@.len() implies image_cname_pred()(
            #[trigger] sv[i],
        ) by {
            assert(sv.contains(sv[i]));
            assert(sv.to_multiset().count(sv[i]) > 0);
            assert(fv.to_multiset().count(sv[i]) > 0);
            assert(fv.contains(sv[i]));
            let j = choose|j: int| 0 <= j < fv.len() && fv[j] == sv[i];
            nv.lemma_filter_pred(image_cname_pred(), j);
        }
    }
    sorted
}

/// The names of a listing's entries whose flag equals `flag` — for a
/// directory listing flagged by "is a directory", the plain files carry
/// `false`; for an archive listing flagged by "is a file", they carry
/// `true`.
pub open spec fn flagged_names(listing: Seq<(String, bool)>, flag: bool) -> Seq<String> {
    listing.filter(|p: (String, bool)| p.1 == flag).map_values(|p: (String, bool)| p.0)
}

/// Builds a container's entry list from a listing of named entries with a
/// flag: exactly the names whose flag equals `flag` and whose suffix is a
/// supported image format, in natural order.
pub fn entries_from_listing(listing: Vec<(String, bool)>, flag: bool) -> (r: Vec<String>)
    ensures
        name_views(r@).to_multiset() == name_views(flagged_names(listing@, flag)).filter(
            image_cname_pred(),
        ).to_multiset(),
        natural_sorted(r@),
        forall|i: int| 0 <= i < r@.len() ==> image_cname_pred()(#[trigger] name_views(r@)[i]),
{
    let mut names: Vec<String> = Vec::new();
    let mut i: usize = 0;
    while i < listing.len()
        invariant
            0 <= i <= listing@.len(),
            names@ == flagged_names(listing@.take(i as int), flag),
        decreases listing@.len() - i,
    {
        proof {
            reveal(Seq::filter);
            assert(listing@.take(i + 1).drop_last() =~= listing@.take(i as int));
            assert(listing@.take(i + 1).last() == listing@[i as int]);
        }
        let keep = listing[i].1 == flag;
        if keep {
            names.push(listing[i].0.clone());
        }
        proof {
            if keep {
                assert(names@ =~= flagged_names(listing@.take(i as int), flag).push(
                    listing@[i as int].0,
                ));
                assert(flagged_names(listing@.take(i + 1), flag) =~= flagged_names(
                    listing@.take(i as int),
                    flag,
                ).push(listing@[i as int].0));
            } else {
                assert(flagged_names(listing@.take(i + 1), flag) =~= flagged_names(
                    listing@.take(i as int),
                    flag,
                ));
            }
        }
        i = i + 1;
    }
    proof {
        assert(listing@.take(listing@.len() as int) =~= listing@);
    }
    filter_image_names(names)
}

/// Finds the position of `name` in the entry list, comparing by characters.
pub fn find_entry(entries: &Vec<String>, name: &String) -> (r: Option<usize>)
    ensures
        r matches Some(i) ==> i < entries@.len() && entries@[i as int]@ == name@ && i as int
            == first_idx(entries@, name@),
        r is None ==> !has_name(entries@, name@),
{
    let mut i: usize = 0;
    while i < entries.len()
        invariant
            0 <= i <= entries@.len(),
            forall|k: int| 0 <= k < i ==> #[trigger] entries@[k]@ != name@,
        decreases entries@.len() - i,
    {
        let e = &entries[i];
        if *e == *name {
            proof {
                assert(has_name(entries@, name@)) by {
                    assert(entries@[i as int]@ == name@);
                }
                lemma_first_idx(entries@, name@);
                let f = first_idx(entries@, name@);
                if f < i as int {
                    assert(entries@[f]@ != name@);
                }
            }
            return Some(i);
        }
        i = i + 1;
    }
    None
}

} // verus!
