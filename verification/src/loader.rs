//! The image loader above a container: a cache keyed by entry, a resize
//! policy applied to every loaded image, and best-effort preloading of a
//! range of entries under a replaceable cancellation token. Here the loading
//! itself is sequential; a caller that wants background preloading computes
//! the pending entries with `preload_plan` and schedules the loads itself.

use vstd::prelude::*;
use crate::container::Container;
use crate::zip_container::zip_member_of;
use crate::entries::{find_entry, first_idx, has_name};
use crate::error::Error;
use crate::image::{Image, ImageView};
use crate::resize::{apply_policy, ResizePolicy};

verus! {

/// Loads entries of one container as images, caching every full-fidelity
/// load and applying one resize policy throughout.
pub struct ImageLoader {
    container: Container,
    cache: Vec<Option<Image>>,
    policy: ResizePolicy,
    cancel_requested: bool,
}

impl ImageLoader {
    /// The wrapped container.
    pub closed spec fn spec_container(self) -> Container {
        self.container
    }

    /// The container's entry list.
    pub open spec fn spec_entries(self) -> Seq<String> {
        self.spec_container().spec_entries()
    }

    /// The cache, one slot per entry, as image views.
    pub closed spec fn spec_cache(self) -> Seq<Option<ImageView>> {
        self.cache@.map_values(
            |o: Option<Image>|
                match o {
                    Some(img) => Some(img@),
                    None => None,
                },
        )
    }

    /// The resize policy.
    pub closed spec fn spec_policy(self) -> ResizePolicy {
        self.policy
    }

    /// Whether the current preload generation is cancelled.
    pub closed spec fn spec_cancel(self) -> bool {
        self.cancel_requested
    }

    /// What the cache holds for a name: the slot of the first entry with
    /// that name, `None` for names outside the entry list.
    pub open spec fn spec_lookup(self, name: Seq<char>) -> Option<ImageView> {
        if has_name(self.spec_entries(), name) {
            self.spec_cache()[first_idx(self.spec_entries(), name)]
        } else {
            None
        }
    }

    /// One cache slot per entry; every cached image decodes to its stated
    /// dimensions and respects the height bound.
    pub open spec fn wf(self) -> bool {
        &&& self.spec_container().wf()
        &&& self.spec_cache().len() == self.spec_entries().len()
        &&& forall|i: int|
            0 <= i < self.spec_cache().len() ==> match #[trigger] self.spec_cache()[i] {
                Some(v) => crate::image::image_dims(v.data) == Some((v.width, v.height)) && (
                self.spec_policy().max_height != 0 ==> v.height <= self.spec_policy().max_height),
                None => true,
            }
    }

    /// Wraps a container: the cache starts empty and nothing is cancelled.
    pub fn new(container: Container, policy: ResizePolicy) -> (r: ImageLoader)
        requires
            container.wf(),
        ensures
            r.wf(),
            r.spec_container() == container,
            r.spec_policy() == policy,
            r.spec_cancel() == false,
            r.spec_cache().len() == container.spec_entries().len(),
            forall|i: int| 0 <= i < r.spec_cache().len() ==> #[trigger] r.spec_cache()[i] is None,
    {
        let n = container.get_entries().len();
        let mut cache: Vec<Option<Image>> = Vec::new();
        let mut i: usize = 0;
        while i < n
            invariant
                0 <= i <= n,
                cache@.len() == i,
                forall|k: int| 0 <= k < i ==> #[trigger] cache@[k] is None,
            decreases n - i,
        {
            cache.push(None);
            i = i + 1;
        }
        ImageLoader { container, cache, policy, cancel_requested: false }
    }

    /// The wrapped container, read-only.
    pub fn container(&self) -> (r: &Container)
        ensures
            r == self.spec_container(),
    {
        &self.container
    }

    /// A pure cache lookup: the cached image for the entry, `None` where the
    /// entry is unknown or not yet loaded. Never touches the source.
    pub fn get_image_from_cache(&self, entry: &String) -> (r: Option<Image>)
        requires
            self.wf(),
        ensures
            match self.spec_lookup(entry@) {
                Some(v) => r matches Some(img) && img@ == v,
                None => r is None,
            },
    {
        let idx = match find_entry(self.container.get_entries(), entry) {
            None => {
                return None;
            },
            Some(i) => i,
        };
        match &self.cache[idx] {
            Some(img) => {
                let out = img.clone();
                Some(out)
            },
            None => None,
        }
    }

    /// Everything `get_image` promises, relating the loader before and
    /// after one call for `name` with result `r`.
    pub open spec fn get_image_post(
        pre: ImageLoader,
        post: ImageLoader,
        name: Seq<char>,
        r: Result<Image, Error>,
    ) -> bool {
        &&& post.spec_container() == pre.spec_container()
        &&& post.spec_policy() == pre.spec_policy()
        &&& post.spec_cancel() == pre.spec_cancel()
        &&& (!has_name(pre.spec_entries(), name) ==> post == pre && (r matches Err(e)
            && e is EntryNotFound))
        &&& (pre.spec_lookup(name) matches Some(v) ==> post == pre && (r matches Ok(img) && img@
            == v))
        &&& (r matches Ok(img) ==> img.wf() && post.spec_lookup(name) == Some(img@) && (
        pre.spec_policy().max_height != 0 ==> img.height <= pre.spec_policy().max_height))
        &&& (r is Err ==> post == pre)
        &&& (r matches Err(e) ==> e is EntryNotFound || e is Io || e is Decode
            || e is NativeBinding)
        &&& (pre.spec_container() is Zip && pre.spec_policy().max_height == 0 && has_name(
            pre.spec_entries(),
            name,
        ) ==> (r is Ok <==> pre.spec_lookup(name) is Some || ImageLoader::zip_entry_loadable(
            pre,
            first_idx(pre.spec_entries(), name),
        )))
        &&& (pre.spec_container() is Zip && pre.spec_policy().max_height == 0
            && pre.spec_lookup(name) is None ==> (r matches Ok(img) ==> zip_member_of(
            pre.spec_container()->Zip_0.spec_archive(),
            name,
        ) == Some(img.data@)))
        &&& (r is Ok && pre.spec_lookup(name) is None ==> post.spec_cache()
            == pre.spec_cache().update(
            first_idx(pre.spec_entries(), name),
            Some(r.unwrap()@),
        ))
    }

    /// Loads an entry as an image: a cache hit is returned at once and
    /// changes nothing; a miss loads from the container, applies the resize
    /// policy, caches the result and returns it. `EntryNotFound` comes
    /// exactly on identifiers absent from the entry list.
    pub fn get_image(&mut self, entry: &String) -> (r: Result<Image, Error>)
        requires
            old(self).wf(),
        ensures
            final(self).wf(),
            Self::get_image_post(*old(self), *final(self), entry@, r),
    {
        let idx = match find_entry(self.container.get_entries(), entry) {
            None => {
                return Err(Error::EntryNotFound(entry.clone()));
            },
            Some(i) => i,
        };
        proof {
            assert(has_name(self.spec_entries(), entry@)) by {
                assert(self.spec_entries()[idx as int]@ == entry@);
            }
        }
        match &self.cache[idx] {
            Some(img) => {
                let out = img.clone();
                return Ok(out);
            },
            None => {},
        }
        let full = match self.container.get_image(entry) {
            Ok(f) => f,
            Err(e) => {
                return Err(e);
            },
        };
        let img = match apply_policy(full, &self.policy) {
            Ok(i) => i,
            Err(e) => {
                return Err(e);
            },
        };
        let stored = img.clone();
        let ghost pre_cache = self.spec_cache();
        self.cache.set(idx, Some(stored));
        proof {
            assert(self.spec_cache() =~= pre_cache.update(idx as int, Some(img@)));
        }
        Ok(img)
    }

    /// A preview of an entry: `None` where the full image is already cached
    /// (nothing to show — the full image is available at once); otherwise a
    /// fresh thumbnail from the container, never cached.
    pub fn get_preview_image(&self, entry: &String) -> (r: Result<Option<Image>, Error>)
        requires
            self.wf(),
        ensures
            self.spec_lookup(entry@) is Some ==> (r matches Ok(o) && o is None),
            !has_name(self.spec_entries(), entry@) ==> (r matches Err(e) && e is EntryNotFound),
            r matches Ok(o) ==> (o matches Some(img) ==> img.wf() && img.width
                <= crate::resize::THUMBNAIL_SIZE && img.height <= crate::resize::THUMBNAIL_SIZE
                && self.spec_lookup(entry@) is None),
            r matches Ok(o) ==> (o is None ==> self.spec_lookup(entry@) is Some),
            r matches Err(e) ==> e is EntryNotFound || e is Io || e is Decode
                || e is NativeBinding,
    {
        let idx = match find_entry(self.container.get_entries(), entry) {
            None => {
                return Err(Error::EntryNotFound(entry.clone()));
            },
            Some(i) => i,
        };
        proof {
            assert(has_name(self.spec_entries(), entry@)) by {
                assert(self.spec_entries()[idx as int]@ == entry@);
            }
        }
        if self.cache[idx].is_some() {
            return Ok(None);
        }
        match self.container.get_thumbnail(entry) {
            Ok(img) => Ok(Some(img)),
            Err(e) => Err(e),
        }
    }

    /// Whether entry `i` of a ZIP-backed loader is loadable without outside
    /// help: its member extracts from the in-memory archive and decodes.
    pub open spec fn zip_entry_loadable(pre: ImageLoader, i: int) -> bool {
        match pre.spec_container() {
            Container::Zip(z) => zip_member_of(z.spec_archive(), pre.spec_entries()[i]@) is Some
                && crate::image::image_dims(
                zip_member_of(z.spec_archive(), pre.spec_entries()[i]@).unwrap(),
            ) is Some,
            _ => false,
        }
    }

    /// Everything `request_preload` promises: outside the requested range
    /// the cache is untouched; inside it, already-cached entries keep their
    /// value and no slot is emptied. An empty range changes nothing; a
    /// non-empty one replaces the cancellation token with a fresh one. Over
    /// an in-memory ZIP with resizing disabled, loading is decided: a range
    /// entry ends cached exactly where it was cached before or its member
    /// extracts and decodes.
    pub open spec fn preload_post(
        pre: ImageLoader,
        post: ImageLoader,
        begin: int,
        end: int,
    ) -> bool {
        &&& post.spec_container() == pre.spec_container()
        &&& post.spec_policy() == pre.spec_policy()
        &&& (begin >= end ==> post == pre)
        &&& (begin < end ==> post.spec_cancel() == false)
        &&& post.spec_cache().len() == pre.spec_cache().len()
        &&& forall|i: int|
            0 <= i < pre.spec_cache().len() && !(begin <= i < end)
                ==> #[trigger] post.spec_cache()[i] == pre.spec_cache()[i]
        &&& forall|i: int|
            begin <= i < end && 0 <= i < pre.spec_cache().len() && pre.spec_cache()[i] is Some
                ==> #[trigger] post.spec_cache()[i] == pre.spec_cache()[i]
        &&& forall|i: int|
            begin <= i < end && 0 <= i < pre.spec_cache().len()
                && #[trigger] post.spec_cache()[i] is None ==> pre.spec_cache()[i] is None
        &&& (pre.spec_container() is Zip && pre.spec_policy().max_height == 0 ==> forall|i: int|
            begin <= i < end && 0 <= i < pre.spec_cache().len()
                ==> (#[trigger] post.spec_cache()[i] is Some <==> pre.spec_cache()[i] is Some
                || Self::zip_entry_loadable(pre, i)))
        &&& (pre.spec_container() is Zip && pre.spec_policy().max_height == 0 ==> forall|i: int|
            begin <= i < end && 0 <= i < pre.spec_cache().len() && pre.spec_cache()[i] is None
                ==> ((#[trigger] post.spec_cache()[i]) matches Some(v) ==> zip_member_of(
                pre.spec_container()->Zip_0.spec_archive(),
                pre.spec_entries()[i]@,
            ) == Some(v.data)))
    }

    /// Requests that entries `begin_index .. begin_index + count` be loaded
    /// into the cache. An empty range is a no-op. Otherwise the previous
    /// preload generation is cancelled and a fresh token installed, and each
    /// not-yet-cached entry of the range is loaded best-effort through the
    /// same load-and-resize path as `get_image`: a failed entry is left out
    /// of the cache, fails nothing else, and will be retried when next
    /// requested.
    pub fn request_preload(&mut self, begin_index: usize, count: usize)
        requires
            old(self).wf(),
        ensures
            final(self).wf(),
            Self::preload_post(
                *old(self),
                *final(self),
                begin_index as int,
                if begin_index + count > old(self).spec_entries().len() {
                    old(self).spec_entries().len() as int
                } else {
                    begin_index + count
                },
            ),
    {
        let n = self.container.get_entries().len();
        let rest = n - if begin_index < n {
            begin_index
        } else {
            n
        };
        let end = if count < rest {
            begin_index + count
        } else {
            n
        };
        if begin_index >= end {
            return ;
        }
        self.cancel_preload();
        self.cancel_requested = false;
        let ghost pre = *self;
        let mut i = begin_index;
        while i < end
            invariant
                begin_index <= i <= end <= self.spec_entries().len(),
                self.wf(),
                self.spec_container() == pre.spec_container(),
                self.spec_policy() == pre.spec_policy(),
                self.spec_cancel() == false,
                self.spec_cache().len() == pre.spec_cache().len(),
                forall|k: int|
                    0 <= k < pre.spec_cache().len() && !(begin_index <= k < i)
                        ==> #[trigger] self.spec_cache()[k] == pre.spec_cache()[k],
                forall|k: int|
                    begin_index <= k < i && pre.spec_cache()[k] is Some
                        ==> #[trigger] self.spec_cache()[k] == pre.spec_cache()[k],
                forall|k: int|
                    begin_index <= k < i && #[trigger] self.spec_cache()[k] is None
                        ==> pre.spec_cache()[k] is None,
                pre.spec_container() is Zip && pre.spec_policy().max_height == 0 ==> forall|
                    k: int,
                |
                    begin_index <= k < i ==> (#[trigger] self.spec_cache()[k] is Some
                        <==> pre.spec_cache()[k] is Some || Self::zip_entry_loadable(pre, k)),
                pre.spec_container() is Zip && pre.spec_policy().max_height == 0 ==> forall|
                    k: int,
                |
                    begin_index <= k < i && pre.spec_cache()[k] is None ==> ((
                    #[trigger] self.spec_cache()[k]) matches Some(v) ==> zip_member_of(
                        pre.spec_container()->Zip_0.spec_archive(),
                        pre.spec_entries()[k]@,
                    ) == Some(v.data)),
            decreases end - i,
        {
            let ghost at_entry = *self;
            if self.cache[i].is_none() {
                proof {
                    assert(self.spec_cache()[i as int] is None);
                    assert(pre.spec_cache()[i as int] is None);
                }
                let entry = self.container.get_entries()[i].clone();
                proof {
                    assert(entry@ == pre.spec_entries()[i as int]@);
                    assert(has_name(self.spec_entries(), entry@)) by {
                        assert(self.spec_entries()[i as int]@ == entry@);
                    }
                }
                let loaded = match self.container.get_image(&entry) {
                    Ok(full) => match apply_policy(full, &self.policy) {
                        Ok(img) => Some(img),
                        Err(_) => None,
                    },
                    Err(_) => None,
                };
                proof {
                    if pre.spec_container() is Zip && pre.spec_policy().max_height == 0 {
                        assert(loaded is Some <==> Self::zip_entry_loadable(pre, i as int));
                        match &loaded {
                            Some(img) => {
                                assert(zip_member_of(
                                    pre.spec_container()->Zip_0.spec_archive(),
                                    pre.spec_entries()[i as int]@,
                                ) == Some(img.data@));
                            },
                            None => {},
                        }
                    }
                }
                if let Some(img) = loaded {
                    let ghost before = self.spec_cache();
                    let ghost iv = img@;
                    self.cache.set(i, Some(img));
                    proof {
                        assert(self.spec_cache() =~= before.update(i as int, Some(iv)));
                    }
                }
            }
            i = i + 1;
        }
    }

    /// Cancels the current preload generation: not-yet-started work of the
    /// previous request will be skipped. Loading and the cache are
    /// untouched.
    pub fn cancel_preload(&mut self)
        ensures
            final(self).spec_cancel() == true,
            final(self).spec_container() == old(self).spec_container(),
            final(self).spec_cache() == old(self).spec_cache(),
            final(self).spec_policy() == old(self).spec_policy(),
            final(self).wf() == old(self).wf(),
    {
        self.cancel_requested = true;
    }

    /// The entries of the range `begin_index .. begin_index + count` that
    /// are not yet cached, in entry order: the work a background preload of
    /// that range would schedule.
    pub fn preload_plan(&self, begin_index: usize, count: usize) -> (r: Vec<String>)
        requires
            self.wf(),
        ensures
            forall|k: int|
                0 <= k < r@.len() ==> has_name(self.spec_entries(), #[trigger] r@[k]@)
                    && self.spec_lookup(r@[k]@) is None,
            forall|i: int|
                begin_index <= i < begin_index + count && 0 <= i < self.spec_entries().len()
                    && self.spec_lookup(#[trigger] self.spec_entries()[i]@) is None ==> exists|
                k: int,
            |
                    0 <= k < r@.len() && r@[k]@ == self.spec_entries()[i]@,
    {
        let n = self.container.get_entries().len();
        let rest = n - if begin_index < n {
            begin_index
        } else {
            n
        };
        let end = if count < rest {
            begin_index + count
        } else {
            n
        };
        let mut out: Vec<String> = Vec::new();
        let mut i = if begin_index < end {
            begin_index
        } else {
            end
        };
        while i < end
            invariant
                self.wf(),
                i <= end <= self.spec_entries().len(),
                forall|k: int|
                    0 <= k < out@.len() ==> has_name(self.spec_entries(), #[trigger] out@[k]@)
                        && self.spec_lookup(out@[k]@) is None,
                forall|t: int|
                    begin_index <= t < i && self.spec_lookup(
                        #[trigger] self.spec_entries()[t]@,
                    ) is None ==> exists|k: int| 0 <= k < out@.len() && out@[k]@
                        == self.spec_entries()[t]@,
            decreases end - i,
        {
            let entry = self.container.get_entries()[i].clone();
            let ghost old_out = out@;
            let cached = self.get_image_from_cache(&entry);
            if cached.is_none() {
                proof {
                    assert(has_name(self.spec_entries(), entry@)) by {
                        assert(self.spec_entries()[i as int]@ == entry@);
                    }
                }
                out.push(entry);
            }
            proof {
                assert forall|t: int|
                    begin_index <= t < i + 1 && self.spec_lookup(
                        #[trigger] self.spec_entries()[t]@,
                    ) is None implies exists|k: int| 0 <= k < out@.len() && out@[k]@
                    == self.spec_entries()[t]@ by {
                    if t < i {
                        let k = choose|k: int|
                            0 <= k < old_out.len() && old_out[k]@ == self.spec_entries()[t]@;
                        assert(out@[k]@ == self.spec_entries()[t]@);
                    } else {
                        assert(out@[out@.len() - 1]@ == self.spec_entries()[i as int]@);
                    }
                }
            }
            i = i + 1;
        }
        out
    }
}

/// Idempotence of loading: a `get_image` call that returned an image leaves
/// that image in the cache, so an immediately following call for the same
/// entry is answered from the cache with the identical image value and
/// changes nothing.
pub proof fn lemma_get_image_idempotent(
    s0: ImageLoader,
    s1: ImageLoader,
    s2: ImageLoader,
    name: Seq<char>,
    r1: Result<Image, Error>,
    r2: Result<Image, Error>,
)
    requires
        ImageLoader::get_image_post(s0, s1, name, r1),
        r1 is Ok,
        ImageLoader::get_image_post(s1, s2, name, r2),
    ensures
        s2 == s1,
        r2 matches Ok(img) && img@ == r1.unwrap()@,
{
    assert(s1.spec_lookup(name) == Some(r1.unwrap()@));
}

/// Cache correctness of preloading: after a preload that cached the entry at
/// position `i` of the requested range, a `get_image` call for that entry is
/// answered from the cache: it returns exactly the cached image and leaves
/// the loader unchanged.
pub proof fn lemma_preload_then_get(
    s0: ImageLoader,
    s1: ImageLoader,
    s2: ImageLoader,
    begin: int,
    end: int,
    i: int,
    r: Result<Image, Error>,
)
    requires
        ImageLoader::preload_post(s0, s1, begin, end),
        begin <= i < end,
        0 <= i < s0.spec_cache().len(),
        s0.spec_cache().len() == s0.spec_entries().len(),
        s1.spec_cache()[i] is Some,
        i == first_idx(s1.spec_entries(), s1.spec_entries()[i]@),
        ImageLoader::get_image_post(s1, s2, s1.spec_entries()[i]@, r),
    ensures
        s2 == s1,
        r matches Ok(img) && Some(img@) == s1.spec_cache()[i],
{
    let name = s1.spec_entries()[i]@;
    assert(has_name(s1.spec_entries(), name)) by {
        assert(s1.spec_entries()[i]@ == name);
    }
    assert(s1.spec_lookup(name) == s1.spec_cache()[i]);
}

/// Cache population for in-memory archives: after a preload of a range over
/// a ZIP-backed loader whose policy does not resize, every entry of the
/// range whose member extracts and decodes is in the cache, and a freshly
/// cached entry holds exactly the member's bytes.
pub proof fn lemma_preload_populates_zip(
    s0: ImageLoader,
    s1: ImageLoader,
    begin: int,
    end: int,
    i: int,
)
    requires
        ImageLoader::preload_post(s0, s1, begin, end),
        s0.spec_container() is Zip,
        s0.spec_policy().max_height == 0,
        begin <= i < end,
        0 <= i < s0.spec_cache().len(),
        ImageLoader::zip_entry_loadable(s0, i),
    ensures
        s1.spec_cache()[i] is Some,
        s0.spec_cache()[i] is None ==> s1.spec_cache()[i].unwrap().data == zip_member_of(
            s0.spec_container()->Zip_0.spec_archive(),
            s0.spec_entries()[i]@,
        ).unwrap(),
{
}

/// Cancellation bounds preloading: after a preload of one range and a second
/// request with an empty range, the loader is as the first preload left it,
/// and no entry outside the first range has entered the cache.
pub proof fn lemma_preload_cancel(
    s0: ImageLoader,
    s1: ImageLoader,
    s2: ImageLoader,
    begin: int,
    end: int,
    begin2: int,
    end2: int,
)
    requires
        ImageLoader::preload_post(s0, s1, begin, end),
        ImageLoader::preload_post(s1, s2, begin2, end2),
        begin2 >= end2,
    ensures
        s2 == s1,
        forall|i: int|
            0 <= i < s0.spec_cache().len() && !(begin <= i < end) && s0.spec_cache()[i] is None
                ==> #[trigger] s2.spec_cache()[i] is None,
{
}

} // verus!
