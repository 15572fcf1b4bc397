//! Making room in the cache: the least recently used models go first, and no
//! more of them than needed.

use crate::cache::{self, CacheListing, CachedFile};
use crate::config::{self, Config};
use crate::error::{ErrorView, InferaError};
use vstd::prelude::*;

verus! {

/// The cache is too full for a new model.
#[derive(Debug, PartialEq, Eq)]
pub struct Shortage {
    /// How many bytes of models the cache holds.
    pub current_size: u64,
    /// How many bytes of models it may hold for the new one to fit.
    pub target_size: u64,
}

/// What comes after a look at the size of the cache.
#[derive(Debug, PartialEq, Eq)]
pub enum EvictionStep {
    /// List the cache and begin an [`Eviction`] with the listing.
    ListModels(Shortage),
    /// There is nothing more to do.
    Finished(Result<(), InferaError>),
}

/// How many bytes of models the cache may hold for a new one to fit. Where the
/// new one alone is over the limit, none.
pub open spec fn target_size(limit: int, required_space: int) -> int {
    if limit >= required_space {
        limit - required_space
    } else {
        0
    }
}

/// Decides whether models have to go for a new one of `required_space` bytes to
/// fit, given a listing of the cache.
pub fn evict_cache_if_needed(
    config: &Config,
    required_space: u64,
    listing: &CacheListing,
) -> (r: EvictionStep)
    requires
        cache::cached_size(listing.entries()) <= u64::MAX,
    ensures
        listing matches CacheListing::Unreadable(reason) ==> {
            &&& r matches EvictionStep::Finished(Err(error))
            &&& error@ == ErrorView::IoError(reason@)
        },
        !(listing is Unreadable) && cache::cached_size(listing.entries()) + required_space
            <= config.cache_size_limit ==> r == EvictionStep::Finished(Ok(())),
        !(listing is Unreadable) && cache::cached_size(listing.entries()) + required_space
            > config.cache_size_limit ==> {
            &&& r matches EvictionStep::ListModels(shortage)
            &&& shortage.current_size == cache::cached_size(listing.entries())
            &&& shortage.target_size == target_size(
                config.cache_size_limit as int,
                required_space as int,
            )
        },
{
    let limit: u64 = config::get_cache_size_limit(config);
    match cache::get_cache_size(listing) {
        Err(error) => EvictionStep::Finished(Err(error)),
        Ok(current_size) => {
            let fits: bool = match current_size.checked_add(required_space) {
                Some(total) => total <= limit,
                None => false,
            };
            if fits {
                EvictionStep::Finished(Ok(()))
            } else {
                EvictionStep::ListModels(
                    Shortage { current_size, target_size: limit.saturating_sub(required_space) },
                )
            }
        },
    }
}

/// How many bytes are freed once the first `n` models are gone.
pub open spec fn freed(files: Seq<CachedFile>, n: int) -> int {
    cache::total_size(files.take(n))
}

/// With the first `n` models gone, the cache is still too full.
pub open spec fn still_too_full(
    current_size: int,
    target_size: int,
    files: Seq<CachedFile>,
    n: int,
) -> bool {
    current_size - freed(files, n) > target_size
}

/// An eviction under way.
#[derive(Debug)]
pub struct Eviction {
    files: Vec<CachedFile>,
    removed: usize,
    remaining: u64,
    target_size: u64,
    current_size: u64,
}

impl Eviction {
    /// The models of the cache, the least recently used first.
    pub closed spec fn files(&self) -> Seq<CachedFile> {
        self.files@
    }

    /// How many of them are gone.
    pub closed spec fn removed(&self) -> int {
        self.removed as int
    }

    /// How many bytes of models the cache held at first.
    pub closed spec fn current_size(&self) -> int {
        self.current_size as int
    }

    /// How many bytes of models it may hold in the end.
    pub closed spec fn target_size(&self) -> int {
        self.target_size as int
    }

    /// What is gone are the first models, and each of them had to go.
    pub closed spec fn wf(&self) -> bool {
        &&& 0 <= self.removed <= self.files@.len()
        &&& self.remaining == if self.current_size >= freed(self.files@, self.removed as int) {
            self.current_size - freed(self.files@, self.removed as int)
        } else {
            0
        }
        &&& forall|m: int|
            0 <= m < self.removed ==> #[trigger] still_too_full(
                self.current_size(),
                self.target_size(),
                self.files@,
                m,
            )
    }

    /// The next model has to go.
    pub open spec fn must_go_on(&self) -> bool {
        self.removed() < self.files().len() && still_too_full(
            self.current_size(),
            self.target_size(),
            self.files(),
            self.removed(),
        )
    }

    /// Begins an eviction with a listing of the cache.
    pub fn begin(shortage: &Shortage, listing: &CacheListing) -> (r: Result<Eviction, InferaError>)
        ensures
            listing matches CacheListing::Unreadable(reason) ==> r is Err && r->Err_0@
                == ErrorView::IoError(reason@),
            !(listing is Unreadable) ==> {
                &&& r matches Ok(eviction)
                &&& eviction.wf()
                &&& cache::are_by_access_time(listing.entries(), eviction.files())
                &&& eviction.removed() == 0
                &&& eviction.current_size() == shortage.current_size
                &&& eviction.target_size() == shortage.target_size
            },
    {
        match cache::get_cached_files_by_access_time(listing) {
            Err(error) => Err(error),
            Ok(files) => {
                assert(files@.take(0) == Seq::<CachedFile>::empty());
                Ok(
                    Eviction {
                        files,
                        removed: 0,
                        remaining: shortage.current_size,
                        target_size: shortage.target_size,
                        current_size: shortage.current_size,
                    },
                )
            },
        }
    }

    /// The position in the listing of the model to remove next, if one has to go.
    pub fn next_removal(&self) -> (r: Option<usize>)
        requires
            self.wf(),
        ensures
            r is Some <==> self.must_go_on(),
            r matches Some(entry) ==> entry == self.files()[self.removed()].entry,
    {
        if self.removed < self.files.len() && self.remaining > self.target_size {
            Some(self.files[self.removed].entry)
        } else {
            None
        }
    }

    /// Takes note of what came of removing the model.
    pub fn after_removal(&mut self, outcome: Result<(), String>) -> (r: Result<(), InferaError>)
        requires
            old(self).wf(),
            old(self).must_go_on(),
        ensures
            final(self).wf(),
            final(self).files() == old(self).files(),
            final(self).current_size() == old(self).current_size(),
            final(self).target_size() == old(self).target_size(),
            outcome is Ok ==> r is Ok && final(self).removed() == old(self).removed() + 1,
            outcome matches Err(reason) ==> {
                &&& r is Err
                &&& r->Err_0@ == ErrorView::IoError(reason@)
                &&& final(self).removed() == old(self).removed()
            },
    {
        match outcome {
            Err(reason) => Err(InferaError::IoError(reason)),
            Ok(_) => {
                let size: u64 = self.files[self.removed].size;
                assert(self.removed < self.files.len());
                proof {
                    let files = self.files@;
                    let n = self.removed as int;
                    assert(files.take(n + 1).drop_last() == files.take(n));
                    assert(files.take(n + 1).last() == files[n]);
                }
                self.removed = self.removed + 1;
                self.remaining = self.remaining.saturating_sub(size);
                assert forall|m: int| 0 <= m < self.removed implies #[trigger] still_too_full(
                    self.current_size(),
                    self.target_size(),
                    self.files@,
                    m,
                ) by {
                    if m < old(self).removed {
                        assert(still_too_full(
                            old(self).current_size(),
                            old(self).target_size(),
                            old(self).files@,
                            m,
                        ));
                    }
                }
                Ok(())
            },
        }
    }

    /// Each model that has gone had to: before it went, the cache was too full.
    pub proof fn law_no_model_goes_without_need(&self, m: int)
        requires
            self.wf(),
            0 <= m < self.removed(),
        ensures
            still_too_full(self.current_size(), self.target_size(), self.files(), m),
    {
    }
}

/// `n` is how many models go: the cache is too full as long as fewer are gone,
/// and then either fits or is empty.
pub open spec fn is_eviction_count(
    current_size: int,
    target_size: int,
    files: Seq<CachedFile>,
    n: int,
) -> bool {
    &&& 0 <= n <= files.len()
    &&& n < files.len() ==> !still_too_full(current_size, target_size, files, n)
    &&& forall|m: int| 0 <= m < n ==> #[trigger] still_too_full(current_size, target_size, files, m)
}

/// An eviction that need not go on has removed as many models as have to go.
pub proof fn law_eviction_stops_where_it_should(eviction: &Eviction)
    requires
        eviction.wf(),
        !eviction.must_go_on(),
    ensures
        is_eviction_count(
            eviction.current_size(),
            eviction.target_size(),
            eviction.files(),
            eviction.removed(),
        ),
{
}

/// There is one number of models that have to go.
pub proof fn law_eviction_count_is_unique(
    current_size: int,
    target_size: int,
    files: Seq<CachedFile>,
    n1: int,
    n2: int,
)
    requires
        is_eviction_count(current_size, target_size, files, n1),
        is_eviction_count(current_size, target_size, files, n2),
    ensures
        n1 == n2,
{
    if n1 < n2 {
        assert(still_too_full(current_size, target_size, files, n1));
    } else if n2 < n1 {
        assert(still_too_full(current_size, target_size, files, n2));
    }
}

/// The models that go are the least recently used: none of those that stay was
/// used before one that goes.
pub proof fn law_least_recently_used_go_first(
    entries: Seq<cache::CacheEntry>,
    files: Seq<CachedFile>,
    n: int,
    gone: int,
    kept: int,
)
    requires
        cache::are_by_access_time(entries, files),
        0 <= gone < n <= kept < files.len(),
    ensures
        files[gone].accessed <= files[kept].accessed,
        cache::precedes(files[gone], files[kept]),
{
}

/// What is freed and what stays make up the whole.
proof fn lemma_freed_and_kept(files: Seq<CachedFile>, n: int)
    requires
        0 <= n <= files.len(),
    ensures
        freed(files, n) + cache::total_size(files.skip(n)) == cache::total_size(files),
        cache::total_size(files.skip(n)) >= 0,
    decreases files.len(),
{
    if n == files.len() {
        assert(files.take(n) == files);
        assert(files.skip(n) == Seq::<CachedFile>::empty());
    } else {
        lemma_freed_and_kept(files.drop_last(), n);
        assert(files.drop_last().take(n) == files.take(n));
        assert(files.skip(n).drop_last() == files.drop_last().skip(n));
        assert(files.skip(n).last() == files.last());
    }
}

/// After an eviction the models that stay take up no more than the target. So
/// where the new model is not over the limit by itself, the cache with the new
/// model in it is not over the limit.
pub proof fn law_eviction_makes_room(
    entries: Seq<cache::CacheEntry>,
    files: Seq<CachedFile>,
    limit: int,
    required_space: int,
    n: int,
)
    requires
        entries.len() <= usize::MAX,
        cache::are_by_access_time(entries, files),
        0 <= limit,
        0 <= required_space,
        is_eviction_count(
            cache::cached_size(entries),
            target_size(limit, required_space),
            files,
            n,
        ),
    ensures
        cache::total_size(files.skip(n)) <= target_size(limit, required_space),
        required_space <= limit ==> cache::total_size(files.skip(n)) + required_space <= limit,
{
    cache::law_ordered_models_make_up_the_cache(entries, files);
    lemma_freed_and_kept(files, n);
    if n == files.len() {
        assert(files.skip(n) == Seq::<CachedFile>::empty());
    }
}

/// `n` is how many models go for a new one of `required_space` bytes: none where
/// it fits as it is.
pub open spec fn is_number_evicted(
    entries: Seq<cache::CacheEntry>,
    files: Seq<CachedFile>,
    limit: int,
    required_space: int,
    n: int,
) -> bool {
    if cache::cached_size(entries) + required_space <= limit {
        n == 0
    } else {
        is_eviction_count(
            cache::cached_size(entries),
            target_size(limit, required_space),
            files,
            n,
        )
    }
}

/// The names of the first `n` models.
pub open spec fn evicted_names(
    entries: Seq<cache::CacheEntry>,
    files: Seq<CachedFile>,
    n: int,
) -> Set<Seq<u8>> {
    Set::new(
        |name: Seq<u8>|
            exists|k: int|
                0 <= k < n && entries[(#[trigger] files[k]).entry as int].name@ == name,
    )
}

/// The entries of models in a listing.
spec fn entries_of(
    entries: Seq<cache::CacheEntry>,
    files: Seq<CachedFile>,
) -> Seq<cache::CacheEntry> {
    Seq::new(files.len(), |k: int| entries[files[k].entry as int])
}

/// The entries of models have the size of the models.
proof fn lemma_size_of_entries(entries: Seq<cache::CacheEntry>, files: Seq<CachedFile>)
    requires
        forall|k: int| 0 <= k < files.len() ==> cache::is_model_of(entries, #[trigger] files[k]),
    ensures
        cache::cached_size(entries_of(entries, files)) == cache::total_size(files),
    decreases files.len(),
{
    if files.len() > 0 {
        let rest = files.drop_last();
        assert forall|k: int| 0 <= k < rest.len() implies cache::is_model_of(
            entries,
            #[trigger] rest[k],
        ) by {
            assert(rest[k] == files[k]);
        }
        lemma_size_of_entries(entries, rest);
        assert(entries_of(entries, files).drop_last() =~= entries_of(entries, rest));
        assert(cache::is_model_of(entries, files[files.len() - 1]));
    }
}

/// Once models have gone for a new one, and the new one is there, the cache takes
/// up no more space than the limit, unless the new model alone does.
pub(crate) proof fn lemma_room_for_new_model(
    before: Seq<cache::CacheEntry>,
    files: Seq<CachedFile>,
    limit: int,
    size: u64,
    n: int,
    model: Seq<u8>,
    after: Seq<cache::CacheEntry>,
    at: int,
)
    requires
        before.len() <= usize::MAX,
        cache::are_by_access_time(before, files),
        is_number_evicted(before, files, limit, size as int, n),
        size <= limit,
        cache::have_distinct_names(after),
        0 <= at < after.len(),
        cache::is_cached(after[at]),
        cache::is_file_with(after[at], model, size),
        forall|j: int|
            0 <= j < after.len() && j != at && cache::is_cached(#[trigger] after[j])
                ==> cache::holds_model(before, after[j].name@, after[j].metadata->0.size)
                && !evicted_names(before, files, n).contains(after[j].name@),
    ensures
        cache::cached_size(after) <= limit,
{
    let kept = files.skip(n);
    let old = entries_of(before, kept);
    let others = after.remove(at);
    let index = |j: int| if j < at { j } else { j + 1 };
    assert(0 <= n <= files.len());
    assert forall|k: int| 0 <= k < kept.len() implies cache::is_model_of(
        before,
        #[trigger] kept[k],
    ) by {
        assert(kept[k] == files[n + k]);
    }
    assert forall|j: int| 0 <= j < others.len() implies #[trigger] others[j] == after[index(j)] by {}
    assert(cache::have_distinct_names(others)) by {
        assert forall|i: int, j: int| 0 <= i < j < others.len() implies (#[trigger] others[i]).name@
            != (#[trigger] others[j]).name@ by {
            assert(after[index(i)].name@ != after[index(j)].name@);
        }
    }
    assert forall|j: int| 0 <= j < others.len() && cache::is_cached(#[trigger] others[j]) implies cache::holds_model(
        old,
        others[j].name@,
        others[j].metadata->0.size,
    ) by {
        let e = after[index(j)];
        assert(others[j] == e);
        let i = choose|i: int|
            0 <= i < before.len() && cache::is_cached(#[trigger] before[i]) && cache::is_file_with(
                before[i],
                e.name@,
                e.metadata->0.size,
            );
        let file = cache::cached_file(before, i);
        assert(files.contains(file));
        let k = choose|k: int| 0 <= k < files.len() && files[k] == file;
        assert(before[files[k].entry as int].name@ == e.name@);
        assert(k >= n);
        assert(kept[k - n] == files[k]);
        assert(old[k - n] == before[i]);
    }
    cache::lemma_fewer_models_are_smaller(others, old);
    lemma_size_of_entries(before, kept);
    cache::lemma_cached_size_remove(after, at);
    if cache::cached_size(before) + size <= limit {
        assert(kept == files);
        cache::law_ordered_models_make_up_the_cache(before, files);
    } else {
        law_eviction_makes_room(before, files, limit, size as int, n);
    }
}

/// No more models go than have to: with the last of them still there, the new
/// model would not fit.
pub proof fn law_eviction_is_minimal(
    entries: Seq<cache::CacheEntry>,
    files: Seq<CachedFile>,
    limit: int,
    required_space: int,
    n: int,
)
    requires
        entries.len() <= usize::MAX,
        cache::are_by_access_time(entries, files),
        0 <= required_space <= limit,
        n > 0,
        is_eviction_count(
            cache::cached_size(entries),
            target_size(limit, required_space),
            files,
            n,
        ),
    ensures
        cache::total_size(files.skip(n - 1)) + required_space > limit,
{
    cache::law_ordered_models_make_up_the_cache(entries, files);
    lemma_freed_and_kept(files, n - 1);
    assert(still_too_full(
        cache::cached_size(entries),
        target_size(limit, required_space),
        files,
        n - 1,
    ));
}

/// No model that goes was used later than one that stays, as the file system tells
/// the times at which the two were last used.
pub proof fn law_models_used_later_stay(
    entries: Seq<cache::CacheEntry>,
    files: Seq<CachedFile>,
    n: int,
    gone: int,
    kept: int,
)
    requires
        entries.len() <= usize::MAX,
        cache::are_by_access_time(entries, files),
        0 <= gone < n <= kept < files.len(),
        entries[files[gone].entry as int].metadata->0.accessed is Some,
        entries[files[kept].entry as int].metadata->0.accessed is Some,
    ensures
        entries[files[gone].entry as int].metadata->0.accessed->0
            <= entries[files[kept].entry as int].metadata->0.accessed->0,
{
    cache::law_each_model_is_in_order_once(entries, files);
    let i = files[gone].entry as int;
    let j = files[kept].entry as int;
    let ti = entries[i].metadata->0.accessed->0;
    let tj = entries[j].metadata->0.accessed->0;
    if tj < ti {
        cache::law_models_used_earlier_come_first(entries, files, j, tj, i, ti);
        let (q, p) = choose|q: int, p: int|
            0 <= q < p < files.len() && (#[trigger] files[q]).entry == j && (
            #[trigger] files[p]).entry == i;
        assert(q == kept && p == gone);
    }
}

/// The models that stay and the new one together may take up the limit, no more
/// and no less. Where the new one alone is over the limit, no other may stay.
pub proof fn law_target_and_new_model_make_up_the_limit(limit: int, required_space: int)
    requires
        0 <= limit,
        0 <= required_space,
    ensures
        required_space <= limit ==> target_size(limit, required_space) + required_space == limit,
        required_space > limit ==> target_size(limit, required_space) == 0,
{
}

/// For a model that alone is over the limit models go until those that stay take
/// up nothing, and then no more go.
pub proof fn law_oversized_model_empties_the_cache(
    entries: Seq<cache::CacheEntry>,
    files: Seq<CachedFile>,
    limit: int,
    required_space: int,
    n: int,
)
    requires
        entries.len() <= usize::MAX,
        cache::are_by_access_time(entries, files),
        0 <= limit < required_space,
        is_number_evicted(entries, files, limit, required_space, n),
    ensures
        cache::total_size(files.skip(n)) == 0,
        n > 0 ==> cache::total_size(files.skip(n - 1)) > 0,
{
    cache::law_ordered_models_make_up_the_cache(entries, files);
    lemma_freed_and_kept(files, n);
    lemma_freed_and_kept(files, 0);
    assert(files.take(0) =~= Seq::<CachedFile>::empty());
    if n == files.len() {
        assert(files.skip(n) =~= Seq::<CachedFile>::empty());
    }
    if n > 0 {
        lemma_freed_and_kept(files, n - 1);
        assert(still_too_full(
            cache::cached_size(entries),
            target_size(limit, required_space),
            files,
            n - 1,
        ));
    }
}

impl Eviction {
    /// An eviction goes on exactly as long as there is a model left and those that
    /// have gone do not make up what the cache held above its target.
    pub proof fn law_eviction_goes_on_while_too_full(&self)
        requires
            self.wf(),
        ensures
            0 <= self.removed() <= self.files().len(),
            self.must_go_on() <==> self.removed() < self.files().len() && cache::total_size(
                self.files().take(self.removed()),
            ) < self.current_size() - self.target_size(),
    {
    }
}

} // verus!
