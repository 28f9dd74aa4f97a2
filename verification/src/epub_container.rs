//! A container over an EPUB book: entries are the manifest's image
//! resources, put into reading order by scanning the spine's documents for
//! image references; books without such references fall back to natural
//! order of the resource identifiers.

use vstd::prelude::*;
use crate::entries::{find_entry, first_idx, has_name};
use crate::error::Error;
use crate::image::Image;
use crate::natural::{name_views, natural_sorted, sort_natural};
use crate::resize::make_thumbnail;

verus! {

/// The image references (`src`-like attributes of `img` and `image` tags)
/// that an HTML document holds, in document order; a function of the text
/// alone.
pub uninterp spec fn img_refs_of(content: Seq<char>) -> Seq<Seq<char>>;

/// Relies on `scraper`'s `Html::parse_document` and `Selector`: the `src`,
/// `xlink:href` or `href` attribute of every `img` and `image` element, in
/// document order.
#[verifier::external_body]
fn html_image_refs(content: &String) -> (r: Vec<String>)
    ensures
        name_views(r@) == img_refs_of(content@),
{
    let document = scraper::Html::parse_document(content.as_str());
    let selector = scraper::Selector::parse("img, image").unwrap();
    let mut out = Vec::new();
    for element in document.select(&selector) {
        let attr = element
            .value()
            .attr("src")
            .or_else(|| element.value().attr("xlink:href"))
            .or_else(|| element.value().attr("href"));
        if let Some(src) = attr {
            out.push(src.to_string());
        }
    }
    out
}

/// Relies on `rbook::Epub::options().strict(false).open` and
/// `EpubManifest::images`: each image resource's identifier and resolved
/// location. What comes back depends on the file on disk, so nothing is
/// promised but the error kind.
#[verifier::external_body]
fn epub_image_entries(path: &String) -> (r: Result<Vec<(String, String)>, Error>)
    ensures
        r matches Err(e) ==> e is Decode,
{
    let epub = rbook::Epub::options().strict(false).open(path.as_str()).map_err(
        |e| Error::Decode(e.to_string()),
    )?;
    let mut out = Vec::new();
    for entry in epub.manifest().images() {
        out.push((entry.id().to_string(), entry.href().as_str().to_string()));
    }
    Ok(out)
}

/// Relies on `rbook`'s `EpubReader`: each spine document's resolved location
/// and text, in spine order, stopping at the first unreadable document.
#[verifier::external_body]
fn epub_spine_docs(path: &String) -> (r: Result<Vec<(String, String)>, Error>)
    ensures
        r matches Err(e) ==> e is Decode,
{
    let epub = rbook::Epub::options().strict(false).open(path.as_str()).map_err(
        |e| Error::Decode(e.to_string()),
    )?;
    let mut reader = epub.reader();
    let mut out = Vec::new();
    while let Some(Ok(page)) = reader.read_next() {
        let href = page.manifest_entry().href().as_str().to_string();
        out.push((href, page.content().to_string()));
    }
    Ok(out)
}

/// Relies on `rbook`'s `EpubMetadata::iter`: each metadata entry's property
/// name and value.
#[verifier::external_body]
fn epub_metadata_entries(path: &String) -> (r: Result<Vec<(String, String)>, Error>)
    ensures
        r matches Err(e) ==> e is Decode,
{
    let epub = rbook::Epub::options().strict(false).open(path.as_str()).map_err(
        |e| Error::Decode(e.to_string()),
    )?;
    let mut out = Vec::new();
    for entry in epub.metadata().iter() {
        out.push((entry.property().as_str().to_string(), entry.value().to_string()));
    }
    Ok(out)
}

/// Relies on `rbook`'s `EpubManifest::by_id` and `read_bytes`: the bytes of
/// the manifest resource with that identifier, `None` where the identifier
/// names no resource. Callers gate on the entry list, so only image
/// identifiers reach this.
#[verifier::external_body]
fn epub_read_image(path: &String, id: &String) -> (r: Result<Option<Vec<u8>>, Error>)
    ensures
        r matches Err(e) ==> e is Decode,
{
    let epub = rbook::Epub::options().strict(false).open(path.as_str()).map_err(
        |e| Error::Decode(e.to_string()),
    )?;
    match epub.manifest().by_id(id.as_str()) {
        Some(entry) => Ok(Some(entry.read_bytes().map_err(|e| Error::Decode(e.to_string()))?)),
        None => Ok(None),
    }
}

/// The characters after the last `/`, the whole name where none occurs.
pub open spec fn after_last_slash(s: Seq<char>) -> Seq<char>
    decreases s.len(),
{
    if s.len() == 0 {
        s
    } else if s.last() == '/' {
        Seq::empty()
    } else {
        after_last_slash(s.drop_last()).push(s.last())
    }
}

/// The characters before the last `/`, empty where none occurs.
pub open spec fn before_last_slash(s: Seq<char>) -> Seq<char>
    decreases s.len(),
{
    if s.len() == 0 {
        Seq::empty()
    } else if s.last() == '/' {
        s.drop_last()
    } else {
        before_last_slash(s.drop_last())
    }
}

/// Splitting at position `k` — no `/` from `k` on, and either `k` is 0 or a
/// `/` stands right before it — yields the two sides of the last `/`.
proof fn lemma_split_at_last_slash(s: Seq<char>, k: int)
    requires
        0 <= k <= s.len(),
        forall|t: int| k <= t < s.len() ==> s[t] != '/',
        k > 0 ==> s[k - 1] == '/',
    ensures
        after_last_slash(s) =~= s.skip(k),
        k > 0 ==> before_last_slash(s) =~= s.take(k - 1),
        k == 0 ==> before_last_slash(s) =~= Seq::<char>::empty(),
    decreases s.len(),
{
    if s.len() == 0 {
    } else if s.len() == k {
        assert(s.last() == '/');
    } else {
        assert(s.last() != '/');
        lemma_split_at_last_slash(s.drop_last(), k);
    }
}

/// Position right after the last `/`, 0 where none occurs.
fn last_slash_end(s: &String) -> (r: usize)
    ensures
        r <= s@.len(),
        after_last_slash(s@) =~= s@.skip(r as int),
        r > 0 ==> before_last_slash(s@) =~= s@.take(r - 1),
        r == 0 ==> before_last_slash(s@) =~= Seq::<char>::empty(),
{
    let n = s.as_str().unicode_len();
    let mut k: usize = n;
    while k > 0
        invariant
            0 <= k <= n == s@.len(),
            forall|t: int| k <= t < n ==> s@[t] != '/',
        decreases k,
    {
        if s.as_str().get_char(k - 1) == '/' {
            proof {
                lemma_split_at_last_slash(s@, k as int);
            }
            return k;
        }
        k = k - 1;
    }
    proof {
        lemma_split_at_last_slash(s@, 0);
    }
    0
}

/// The file name of a location: the characters after its last `/`.
pub fn file_name_of(s: &String) -> (r: String)
    ensures
        r@ == after_last_slash(s@),
{
    let k = last_slash_end(s);
    let n = s.as_str().unicode_len();
    String::from_str(s.as_str().substring_char(k, n))
}

/// The directory of a location: the characters before its last `/`.
pub fn dir_of(s: &String) -> (r: String)
    ensures
        r@ == before_last_slash(s@),
{
    let k = last_slash_end(s);
    if k == 0 {
        String::new()
    } else {
        String::from_str(s.as_str().substring_char(0, k - 1))
    }
}

/// A reference resolved against the directory it occurs in: joined with a
/// `/` unless the directory is empty.
pub open spec fn spec_resolve(dir: Seq<char>, reference: Seq<char>) -> Seq<char> {
    if dir.len() == 0 {
        reference
    } else {
        dir + "/"@ + reference
    }
}

/// Resolves a reference against a directory.
pub fn resolve_ref(dir: &String, reference: &String) -> (r: String)
    ensures
        r@ == spec_resolve(dir@, reference@),
{
    if dir.as_str().unicode_len() == 0 {
        reference.clone()
    } else {
        dir.clone().concat("/").concat(reference.as_str())
    }
}

/// Whether a resolved reference names a resource location: either the whole
/// location matches or the file names do.
pub open spec fn spec_ref_matches(resolved: Seq<char>, href: Seq<char>) -> bool {
    resolved == href || after_last_slash(resolved) == after_last_slash(href)
}

/// Whether a resolved reference names a resource location.
pub fn ref_matches(resolved: &String, href: &String) -> (r: bool)
    ensures
        r == spec_ref_matches(resolved@, href@),
{
    if *resolved == *href {
        true
    } else {
        let a = file_name_of(resolved);
        let b = file_name_of(href);
        a == b
    }
}

/// Position of the first image whose location a resolved reference names;
/// the list's length where none does.
pub open spec fn spec_match_idx(images: Seq<(String, String)>, resolved: Seq<char>) -> int
    decreases images.len(),
{
    if images.len() == 0 {
        0
    } else if spec_ref_matches(resolved, images[0].1@) {
        0
    } else {
        1 + spec_match_idx(images.drop_first(), resolved)
    }
}

/// `spec_match_idx` points at the first matching image, and past the end
/// where there is none.
proof fn lemma_match_idx(images: Seq<(String, String)>, resolved: Seq<char>)
    ensures
        0 <= spec_match_idx(images, resolved) <= images.len(),
        spec_match_idx(images, resolved) < images.len() ==> spec_ref_matches(
            resolved,
            images[spec_match_idx(images, resolved)].1@,
        ),
        forall|k: int|
            0 <= k < spec_match_idx(images, resolved) ==> !spec_ref_matches(
                resolved,
                (#[trigger] images[k]).1@,
            ),
    decreases images.len(),
{
    if images.len() > 0 && !spec_ref_matches(resolved, images[0].1@) {
        lemma_match_idx(images.drop_first(), resolved);
        assert forall|k: int|
            0 <= k < spec_match_idx(images, resolved) implies !spec_ref_matches(
            resolved,
            (#[trigger] images[k]).1@,
        ) by {
            if k > 0 {
                assert(!spec_ref_matches(resolved, images.drop_first()[k - 1].1@));
            }
        }
    }
}

/// Finds the first image whose location the resolved reference names.
fn match_image(images: &Vec<(String, String)>, resolved: &String) -> (r: Option<usize>)
    ensures
        r matches Some(m) ==> m < images@.len() && m as int == spec_match_idx(images@, resolved@),
        r is None ==> spec_match_idx(images@, resolved@) == images@.len(),
{
    let mut m: usize = 0;
    while m < images.len()
        invariant
            0 <= m <= images@.len(),
            forall|k: int|
                0 <= k < m ==> !spec_ref_matches(resolved@, (#[trigger] images@[k]).1@),
        decreases images@.len() - m,
    {
        if ref_matches(resolved, &images[m].1) {
            proof {
                lemma_match_idx(images@, resolved@);
                let f = spec_match_idx(images@, resolved@);
                if f < m as int {
                    assert(spec_ref_matches(resolved@, images@[f].1@));
                }
                if f > m as int {
                    assert(!spec_ref_matches(resolved@, images@[m as int].1@));
                }
            }
            return Some(m);
        }
        m = m + 1;
    }
    proof {
        lemma_match_idx(images@, resolved@);
        let f = spec_match_idx(images@, resolved@);
        if f < images@.len() {
            assert(spec_ref_matches(resolved@, images@[f].1@));
        }
    }
    None
}

/// The rearrangement that moves named identifiers to the front: for each
/// name of `order` in turn, the first remaining identifier with that name
/// comes next; identifiers never named follow in their original order.
pub open spec fn spec_ordered_ids(ids: Seq<String>, order: Seq<String>) -> Seq<String>
    decreases order.len(),
{
    if order.len() == 0 {
        ids
    } else if has_name(ids, order[0]@) {
        seq![ids[first_idx(ids, order[0]@)]] + spec_ordered_ids(
            ids.remove(first_idx(ids, order[0]@)),
            order.drop_first(),
        )
    } else {
        spec_ordered_ids(ids, order.drop_first())
    }
}

/// The identifiers of `images`, reordered so that those named in `order`
/// come first, in that order, followed by the rest in manifest order:
/// exactly the rearrangement `spec_ordered_ids` describes.
pub fn order_image_ids(ids: Vec<String>, order: &Vec<String>) -> (r: Vec<String>)
    ensures
        r@ == spec_ordered_ids(ids@, order@),
        r@.to_multiset() == ids@.to_multiset(),
        name_views(r@).to_multiset() == name_views(ids@).to_multiset(),
        r@.len() == ids@.len(),
{
    let ghost orig = ids@;
    let mut remaining = ids;
    let mut out: Vec<String> = Vec::new();
    proof {
        broadcast use vstd::seq_lib::group_to_multiset_ensures;
        broadcast use vstd::multiset::group_multiset_axioms;

        assert(out@.to_multiset().add(remaining@.to_multiset()) =~= orig.to_multiset());
        assert(name_views(out@) =~= Seq::<Seq<char>>::empty());
        assert(name_views(out@).to_multiset().add(name_views(remaining@).to_multiset())
            =~= name_views(orig).to_multiset());
        assert(order@.skip(0) =~= order@);
        assert(out@ + spec_ordered_ids(remaining@, order@) =~= spec_ordered_ids(orig, order@));
    }
    let mut i: usize = 0;
    while i < order.len()
        invariant
            out@.to_multiset().add(remaining@.to_multiset()) == orig.to_multiset(),
            name_views(out@).to_multiset().add(name_views(remaining@).to_multiset())
                == name_views(orig).to_multiset(),
            out@ + spec_ordered_ids(remaining@, order@.skip(i as int)) == spec_ordered_ids(
                orig,
                order@,
            ),
            0 <= i <= order@.len(),
            out@.len() + remaining@.len() == orig.len(),
        decreases order@.len() - i,
    {
        let ghost name = order@[i as int]@;
        proof {
            assert(order@.skip(i as int)[0] == order@[i as int]);
            assert(order@.skip(i as int).drop_first() =~= order@.skip(i + 1));
        }
        match find_entry(&remaining, &order[i]) {
            Some(j) => {
                let ghost old_rem = remaining@;
                let ghost old_out = out@;
                let taken = remaining.remove(j);
                out.push(taken.clone());
                proof {
                    broadcast use vstd::seq_lib::group_to_multiset_ensures;
                    broadcast use vstd::multiset::group_multiset_axioms;

                    assert(old_rem[j as int] == taken);
                    assert(old_rem.contains(taken));
                    assert(remaining@ =~= old_rem.remove(j as int));
                    assert(remaining@.to_multiset() == old_rem.to_multiset().remove(taken));
                    assert(out@ =~= old_out.push(taken));
                    assert(out@.to_multiset() =~= old_out.to_multiset().insert(taken));
                    assert(old_rem.to_multiset().count(taken) >= 1);
                    assert(out@.to_multiset().add(remaining@.to_multiset())
                        =~= old_out.to_multiset().add(old_rem.to_multiset()));
                    // Views: the same exchange, element views in place of
                    // elements.
                    let vrem = name_views(old_rem);
                    let vout = name_views(old_out);
                    assert(name_views(remaining@) =~= vrem.remove(j as int));
                    assert(vrem[j as int] == taken@);
                    assert(vrem.contains(taken@));
                    assert(name_views(remaining@).to_multiset() == vrem.to_multiset().remove(
                        taken@,
                    ));
                    assert(name_views(out@) =~= vout.push(taken@));
                    assert(name_views(out@).to_multiset() =~= vout.to_multiset().insert(taken@));
                    assert(vrem.to_multiset().count(taken@) >= 1);
                    assert(name_views(out@).to_multiset().add(
                        name_views(remaining@).to_multiset(),
                    ) =~= vout.to_multiset().add(vrem.to_multiset()));
                    // The exact rearrangement: this step is one unfolding of
                    // `spec_ordered_ids`.
                    assert(has_name(old_rem, name)) by {
                        assert(old_rem[j as int]@ == name);
                    }
                    assert(j as int == first_idx(old_rem, name));
                    assert(spec_ordered_ids(old_rem, order@.skip(i as int)) == seq![taken]
                        + spec_ordered_ids(remaining@, order@.skip(i + 1)));
                    assert(out@ + spec_ordered_ids(remaining@, order@.skip(i + 1)) =~= old_out
                        + spec_ordered_ids(old_rem, order@.skip(i as int)));
                }
            },
            None => {
                proof {
                    assert(!has_name(remaining@, name));
                    assert(spec_ordered_ids(remaining@, order@.skip(i as int))
                        == spec_ordered_ids(remaining@, order@.skip(i + 1)));
                }
            },
        }
        i = i + 1;
    }
    let ghost selected = out@;
    let mut k: usize = 0;
    proof {
        assert(remaining@.skip(0) =~= remaining@);
        assert(order@.skip(order@.len() as int) =~= Seq::<String>::empty());
        assert(out@ =~= selected + remaining@.take(0));
        assert(name_views(remaining@.skip(0)) =~= name_views(remaining@));
    }
    while k < remaining.len()
        invariant
            0 <= k <= remaining@.len(),
            out@.to_multiset().add(remaining@.skip(k as int).to_multiset()) == orig.to_multiset(),
            name_views(out@).to_multiset().add(
                name_views(remaining@.skip(k as int)).to_multiset(),
            ) == name_views(orig).to_multiset(),
            out@ == selected + remaining@.take(k as int),
            selected + remaining@ == spec_ordered_ids(orig, order@),
            out@.len() + remaining@.len() - k == orig.len(),
        decreases remaining@.len() - k,
    {
        let ghost old_out = out@;
        let ghost suffix = remaining@.skip(k as int);
        out.push(remaining[k].clone());
        proof {
            broadcast use vstd::seq_lib::group_to_multiset_ensures;
            broadcast use vstd::multiset::group_multiset_axioms;

            let head = remaining@[k as int];
            assert(suffix[0] == head);
            assert(suffix.contains(head));
            assert(suffix.remove(0) =~= remaining@.skip(k + 1));
            assert(remaining@.skip(k + 1).to_multiset() == suffix.to_multiset().remove(head));
            assert(suffix.to_multiset().count(head) >= 1);
            assert(out@ =~= old_out.push(head));
            assert(out@.to_multiset() =~= old_out.to_multiset().insert(head));
            assert(out@.to_multiset().add(remaining@.skip(k + 1).to_multiset())
                =~= old_out.to_multiset().add(suffix.to_multiset()));
            let vsuffix = name_views(suffix);
            assert(name_views(remaining@.skip(k as int)) =~= vsuffix);
            assert(vsuffix[0] == head@);
            assert(vsuffix.contains(head@));
            assert(vsuffix.remove(0) =~= name_views(remaining@.skip(k + 1)));
            assert(name_views(remaining@.skip(k + 1)).to_multiset() == vsuffix.to_multiset().remove(
                head@,
            ));
            assert(vsuffix.to_multiset().count(head@) >= 1);
            assert(name_views(out@) =~= name_views(old_out).push(head@));
            assert(name_views(out@).to_multiset() =~= name_views(old_out).to_multiset().insert(
                head@,
            ));
            assert(name_views(out@).to_multiset().add(
                name_views(remaining@.skip(k + 1)).to_multiset(),
            ) =~= name_views(old_out).to_multiset().add(vsuffix.to_multiset()));
            assert(out@ =~= selected + remaining@.take(k + 1));
        }
        k = k + 1;
    }
    proof {
        broadcast use vstd::seq_lib::group_to_multiset_ensures;
        broadcast use vstd::multiset::group_multiset_axioms;

        assert(remaining@.skip(remaining@.len() as int) =~= Seq::<String>::empty());
        assert(name_views(remaining@.skip(remaining@.len() as int)) =~= Seq::<Seq<char>>::empty());
        assert(out@.to_multiset() =~= orig.to_multiset());
        assert(name_views(out@).to_multiset() =~= name_views(orig).to_multiset());
        assert(remaining@.take(remaining@.len() as int) =~= remaining@);
        assert(out@ =~= selected + remaining@);
    }
    out
}

/// The identifiers of a list of image resources, in manifest order.
pub open spec fn ids_of(images: Seq<(String, String)>) -> Seq<String> {
    images.map_values(|p: (String, String)| p.0)
}

/// Identifiers collected from one document's image references, appended to
/// `acc` in first-seen order: each reference, resolved against the
/// document's directory, contributes the first matching image's identifier
/// unless it is already present.
pub open spec fn spec_doc_order(
    images: Seq<(String, String)>,
    dir: Seq<char>,
    refs: Seq<Seq<char>>,
    acc: Seq<String>,
) -> Seq<String>
    decreases refs.len(),
{
    if refs.len() == 0 {
        acc
    } else {
        let m = spec_match_idx(images, spec_resolve(dir, refs[0]));
        let acc2 = if m < images.len() && !has_name(acc, images[m].0@) {
            acc.push(images[m].0)
        } else {
            acc
        };
        spec_doc_order(images, dir, refs.drop_first(), acc2)
    }
}

/// Identifiers collected from all spine documents in order, first-seen.
pub open spec fn spec_reading_order(
    images: Seq<(String, String)>,
    docs: Seq<(String, String)>,
    acc: Seq<String>,
) -> Seq<String>
    decreases docs.len(),
{
    if docs.len() == 0 {
        acc
    } else {
        spec_reading_order(
            images,
            docs.drop_first(),
            spec_doc_order(
                images,
                before_last_slash(docs[0].0@),
                img_refs_of(docs[0].1@),
                acc,
            ),
        )
    }
}

/// Whether metadata reads as a novel: true unless the first
/// `rendition:layout` entry's value is `pre-paginated`.
pub open spec fn spec_is_novel(meta: Seq<(String, String)>) -> bool
    decreases meta.len(),
{
    if meta.len() == 0 {
        true
    } else if meta[0].0@ == "rendition:layout"@ {
        meta[0].1@ != "pre-paginated"@
    } else {
        spec_is_novel(meta.drop_first())
    }
}

/// An EPUB book on disk, with its image resources as entries in reading
/// order.
#[derive(Debug)]
pub struct EpubContainer {
    path: String,
    entries: Vec<String>,
}

impl EpubContainer {
    /// The book's path.
    pub closed spec fn spec_path(self) -> Seq<char> {
        self.path@
    }

    /// The entry list.
    pub closed spec fn spec_entries(self) -> Seq<String> {
        self.entries@
    }

    /// Builds the first-seen reading order of image identifiers from the
    /// spine documents: for each image reference of each document, the first
    /// manifest image whose location matches, resolved against the
    /// document's directory; exactly `spec_reading_order`.
    fn reading_order(images: &Vec<(String, String)>, docs: &Vec<(String, String)>) -> (r: Vec<
        String,
    >)
        ensures
            r@ == spec_reading_order(images@, docs@, Seq::empty()),
    {
        let mut order: Vec<String> = Vec::new();
        proof {
            assert(docs@.skip(0) =~= docs@);
        }
        let mut d: usize = 0;
        while d < docs.len()
            invariant
                0 <= d <= docs@.len(),
                spec_reading_order(images@, docs@.skip(d as int), order@) == spec_reading_order(
                    images@,
                    docs@,
                    Seq::empty(),
                ),
            decreases docs@.len() - d,
        {
            let ghost dirv = before_last_slash(docs@[d as int].0@);
            let ghost refsv = img_refs_of(docs@[d as int].1@);
            let ghost acc0 = order@;
            proof {
                assert(docs@.skip(d as int)[0] == docs@[d as int]);
                assert(docs@.skip(d as int).drop_first() =~= docs@.skip(d + 1));
                assert(refsv.skip(0) =~= refsv);
            }
            let chapter_dir = dir_of(&docs[d].0);
            let refs = html_image_refs(&docs[d].1);
            let mut x: usize = 0;
            while x < refs.len()
                invariant
                    0 <= x <= refs@.len(),
                    chapter_dir@ == dirv,
                    name_views(refs@) == refsv,
                    spec_doc_order(images@, dirv, refsv.skip(x as int), order@) == spec_doc_order(
                        images@,
                        dirv,
                        refsv,
                        acc0,
                    ),
                decreases refs@.len() - x,
            {
                proof {
                    assert(refsv.skip(x as int)[0] == refsv[x as int]);
                    assert(refsv[x as int] == refs@[x as int]@);
                    assert(refsv.skip(x as int).drop_first() =~= refsv.skip(x + 1));
                }
                let resolved = resolve_ref(&chapter_dir, &refs[x]);
                let ghost before = order@;
                let ghost midx = spec_match_idx(images@, resolved@);
                match match_image(images, &resolved) {
                    Some(m) => {
                        let id = &images[m].0;
                        match find_entry(&order, id) {
                            None => {
                                order.push(id.clone());
                                proof {
                                    assert(order@ =~= before.push(images@[m as int].0));
                                }
                            },
                            Some(f) => {
                                proof {
                                    assert(has_name(before, images@[m as int].0@)) by {
                                        assert(before[f as int]@ == images@[m as int].0@);
                                    }
                                }
                            },
                        }
                    },
                    None => {},
                }
                proof {
                    assert(spec_doc_order(images@, dirv, refsv.skip(x as int), before)
                        == spec_doc_order(images@, dirv, refsv.skip(x + 1), order@));
                }
                x = x + 1;
            }
            proof {
                assert(refsv.skip(refsv.len() as int) =~= Seq::<Seq<char>>::empty());
                assert(order@ == spec_doc_order(images@, dirv, refsv, acc0));
            }
            d = d + 1;
        }
        proof {
            assert(docs@.skip(docs@.len() as int) =~= Seq::<(String, String)>::empty());
        }
        order
    }

    /// Builds the entry list from the manifest's image resources (each an
    /// identifier with its resolved location) and the spine documents (each
    /// a location with its text): the identifiers, rearranged into the
    /// spine's first-seen reading order, or sorted naturally where no spine
    /// reference resolves to an image.
    pub fn entries_from_book(images: &Vec<(String, String)>, docs: &Vec<(String, String)>) -> (r:
        Vec<String>)
        ensures
            name_views(r@).to_multiset() == name_views(ids_of(images@)).to_multiset(),
            r@.len() == images@.len(),
            spec_reading_order(images@, docs@, Seq::empty()).len() == 0 ==> natural_sorted(r@),
            spec_reading_order(images@, docs@, Seq::empty()).len() > 0 ==> r@ == spec_ordered_ids(
                ids_of(images@),
                spec_reading_order(images@, docs@, Seq::empty()),
            ),
    {
        let order = Self::reading_order(images, docs);
        let mut ids: Vec<String> = Vec::new();
        let mut i: usize = 0;
        while i < images.len()
            invariant
                0 <= i <= images@.len(),
                ids@ == ids_of(images@).take(i as int),
            decreases images@.len() - i,
        {
            ids.push(images[i].0.clone());
            proof {
                assert(ids@ =~= ids_of(images@).take(i + 1));
            }
            i = i + 1;
        }
        proof {
            assert(ids_of(images@).take(images@.len() as int) =~= ids_of(images@));
        }
        if order.len() == 0 {
            sort_natural(ids)
        } else {
            order_image_ids(ids, &order)
        }
    }

    /// Opens an EPUB book: the entries are its manifest image identifiers,
    /// in the spine's first-seen reading order, or in natural order where
    /// the spine references no image (`entries_from_book` carries the exact
    /// contract; what the manifest and spine hold depends on the file on
    /// disk). Fails exactly where the book cannot be opened or parsed.
    pub fn new(path: &String) -> (r: Result<EpubContainer, Error>)
        ensures
            r matches Ok(c) ==> c.spec_path() == path@,
            r matches Err(e) ==> e is Decode,
    {
        let images = match epub_image_entries(path) {
            Ok(l) => l,
            Err(e) => {
                return Err(e);
            },
        };
        let docs = match epub_spine_docs(path) {
            Ok(l) => l,
            Err(e) => {
                return Err(e);
            },
        };
        let entries = Self::entries_from_book(&images, &docs);
        Ok(EpubContainer { path: path.clone(), entries })
    }

    /// Whether metadata reads as a novel: true unless its first
    /// `rendition:layout` entry has the value `pre-paginated`; exactly
    /// `spec_is_novel`.
    pub fn layout_reads_as_novel(meta: &Vec<(String, String)>) -> (r: bool)
        ensures
            r == spec_is_novel(meta@),
    {
        let key = String::from_str("rendition:layout");
        let fixed = String::from_str("pre-paginated");
        let mut i: usize = 0;
        proof {
            assert(meta@.skip(0) =~= meta@);
        }
        while i < meta.len()
            invariant
                0 <= i <= meta@.len(),
                key@ == "rendition:layout"@,
                fixed@ == "pre-paginated"@,
                spec_is_novel(meta@) == spec_is_novel(meta@.skip(i as int)),
            decreases meta@.len() - i,
        {
            proof {
                assert(meta@.skip(i as int)[0] == meta@[i as int]);
                assert(meta@.skip(i as int).drop_first() =~= meta@.skip(i + 1));
            }
            if meta[i].0 == key {
                let novel = meta[i].1 != fixed;
                return novel;
            }
            i = i + 1;
        }
        proof {
            assert(meta@.skip(meta@.len() as int) =~= Seq::<(String, String)>::empty());
        }
        true
    }

    /// Whether the book reads as a novel rather than as a fixed-layout
    /// comic: `layout_reads_as_novel` of its metadata, which is true unless
    /// the `rendition:layout` property says `pre-paginated`; a book whose
    /// metadata cannot be read counts as not a novel.
    pub fn is_novel(&self) -> (r: bool) {
        let meta = match epub_metadata_entries(&self.path) {
            Ok(l) => l,
            Err(_) => {
                return false;
            },
        };
        Self::layout_reads_as_novel(&meta)
    }

    /// The ordered entry list.
    pub fn get_entries(&self) -> (r: &Vec<String>)
        ensures
            r@ == self.spec_entries(),
    {
        &self.entries
    }

    /// Loads one image resource at full fidelity and probes its bytes.
    /// `EntryNotFound` comes on identifiers absent from the entry list, and
    /// on a listed identifier the book no longer holds.
    pub fn get_image(&self, entry: &String) -> (r: Result<Image, Error>)
        ensures
            !has_name(self.spec_entries(), entry@) ==> (r matches Err(e) && e is EntryNotFound),
            r matches Ok(img) ==> img.wf(),
            r matches Err(e) ==> e is EntryNotFound || e is Decode,
    {
        if find_entry(&self.entries, entry).is_none() {
            return Err(Error::EntryNotFound(entry.clone()));
        }
        let data = match epub_read_image(&self.path, entry) {
            Ok(Some(d)) => d,
            Ok(None) => {
                return Err(Error::EntryNotFound(entry.clone()));
            },
            Err(e) => {
                return Err(e);
            },
        };
        Image::new(data)
    }

    /// Loads one image resource as a thumbnail fitted into the thumbnail
    /// square. Failure modes are those of `get_image`.
    pub fn get_thumbnail(&self, entry: &String) -> (r: Result<Image, Error>)
        ensures
            !has_name(self.spec_entries(), entry@) ==> (r matches Err(e) && e is EntryNotFound),
            r matches Ok(img) ==> img.wf() && img.width <= crate::resize::THUMBNAIL_SIZE
                && img.height <= crate::resize::THUMBNAIL_SIZE,
            r matches Err(e) ==> e is EntryNotFound || e is Decode,
    {
        let full = self.get_image(entry)?;
        if full.width == 0 || full.height == 0 {
            return Err(Error::Decode(String::from_str("image has no pixels")));
        }
        make_thumbnail(&full.data, full.width, full.height)
    }
}

} // verus!
