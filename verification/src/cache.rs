//! What the cache directory holds: its models, from the least to the most
//! recently used, and their size.

use crate::error::{ErrorView, InferaError};
use crate::file_name;
use vstd::prelude::*;

verus! {

/// What the file system tells about a file in the cache directory.
#[derive(Debug)]
pub struct CacheMetadata {
    /// When the file was last accessed, where the platform tells, in nanoseconds
    /// since the Unix epoch.
    pub accessed: Option<i128>,
    /// When the file was looked at, in nanoseconds since the Unix epoch.
    pub observed: i128,
    /// The size of the file in bytes.
    pub size: u64,
}

/// An entry of the cache directory.
#[derive(Debug)]
pub struct CacheEntry {
    /// The name of the entry, in the platform's encoding.
    pub name: Vec<u8>,
    /// Whether the entry is a file.
    pub is_file: bool,
    /// What is known of the file, where it could be read.
    pub metadata: Option<CacheMetadata>,
}

/// What came of listing the cache directory.
#[derive(Debug)]
pub enum CacheListing {
    /// There is no cache directory.
    Missing,
    /// The directory could not be read, for the reason given.
    Unreadable(String),
    /// The entries, in the order in which the directory gave them.
    Entries(Vec<CacheEntry>),
}

/// A model in the cache.
#[derive(Debug, Clone, Copy, PartialEq, Eq)]
pub struct CachedFile {
    /// The position of the model's entry in the listing.
    pub entry: usize,
    /// When the model was last accessed, in nanoseconds since the Unix epoch.
    pub accessed: i128,
    /// The size of the model in bytes.
    pub size: u64,
}

/// Tells whether the entry is a model: a file with the extension `onnx` of which
/// the file system could tell something.
pub open spec fn is_cached(e: CacheEntry) -> bool {
    e.is_file && file_name::extension(e.name@) == Some(file_name::onnx()) && e.metadata is Some
}

/// When the model was last accessed, or else when it was looked at.
pub open spec fn last_access(m: CacheMetadata) -> i128 {
    match m.accessed {
        Some(t) => t,
        None => m.observed,
    }
}

/// The model at a position of the listing.
pub open spec fn cached_file(entries: Seq<CacheEntry>, i: int) -> CachedFile {
    CachedFile {
        entry: i as usize,
        accessed: last_access(entries[i].metadata->0),
        size: entries[i].metadata->0.size,
    }
}

/// Less recently used, or else listed earlier.
pub open spec fn precedes(a: CachedFile, b: CachedFile) -> bool {
    a.accessed < b.accessed || (a.accessed == b.accessed && a.entry < b.entry)
}

/// `files` are the models among `entries`, the least recently used first, and in
/// the order of the listing where they were last used at the same time.
pub open spec fn are_by_access_time(entries: Seq<CacheEntry>, files: Seq<CachedFile>) -> bool {
    &&& forall|i: int, j: int|
        0 <= i < j < files.len() ==> precedes(#[trigger] files[i], #[trigger] files[j])
    &&& forall|i: int|
        0 <= i < files.len() ==> is_model_of(entries, #[trigger] files[i])
    &&& forall|e: int|
        0 <= e < entries.len() && is_cached(#[trigger] entries[e]) ==> files.contains(
            cached_file(entries, e),
        )
}

/// `file` is a model among `entries`.
pub open spec fn is_model_of(entries: Seq<CacheEntry>, file: CachedFile) -> bool {
    &&& file.entry < entries.len()
    &&& is_cached(entries[file.entry as int])
    &&& file == cached_file(entries, file.entry as int)
}

impl CacheListing {
    /// The entries of the listing. A directory that is not there has none.
    pub open spec fn entries(&self) -> Seq<CacheEntry> {
        match self {
            CacheListing::Entries(entries) => entries@,
            _ => Seq::empty(),
        }
    }
}

/// Puts a model into a list that is in order. The model is listed later than
/// those already there.
fn insert_by_access_time(
    files: &mut Vec<CachedFile>,
    file: CachedFile,
    Ghost(entries): Ghost<Seq<CacheEntry>>,
)
    requires
        file.entry < entries.len() <= usize::MAX,
        is_model_of(entries, file),
        are_by_access_time(entries.take(file.entry as int), old(files)@),
    ensures
        are_by_access_time(entries.take(file.entry + 1), final(files)@),
{
    let ghost before = entries.take(file.entry as int);
    let ghost after = entries.take(file.entry + 1);
    let mut at: usize = files.len();
    while at > 0 && files[at - 1].accessed > file.accessed
        invariant
            at <= files@.len(),
            files@ == old(files)@,
            forall|j: int| at <= j < files@.len() ==> (#[trigger] files@[j]).accessed > file.accessed,
        decreases at,
    {
        at = at - 1;
    }
    files.insert(at, file);
    proof {
        let olds = old(files)@;
        assert(files@ == olds.insert(at as int, file));
        assert forall|i: int| 0 <= i < olds.len() implies is_model_of(after, #[trigger] olds[i])
            && olds[i].entry < file.entry by {
            assert(is_model_of(before, olds[i]));
            assert(before[olds[i].entry as int] == after[olds[i].entry as int]);
        }
        assert(is_model_of(after, file));
        assert forall|i: int, j: int| 0 <= i < j < files@.len() implies precedes(
            #[trigger] files@[i],
            #[trigger] files@[j],
        ) by {
            if j < at {
                assert(precedes(olds[i], olds[j]));
            } else if j == at {
                if at > 0 {
                    assert(olds[at - 1].accessed <= file.accessed);
                    if i < at - 1 {
                        assert(precedes(olds[i], olds[at - 1]));
                    }
                }
            } else if i == at {
                assert(olds[j - 1].accessed > file.accessed);
            } else if i < at {
                assert(precedes(olds[i], olds[j - 1]));
            } else {
                assert(precedes(olds[i - 1], olds[j - 1]));
            }
        }
        assert forall|i: int| 0 <= i < files@.len() implies is_model_of(after, #[trigger] files@[i]) by {
            if i < at {
                assert(files@[i] == olds[i]);
            } else if i > at {
                assert(files@[i] == olds[i - 1]);
            }
        }
        assert forall|e: int| 0 <= e < after.len() && is_cached(#[trigger] after[e]) implies files@.contains(
            cached_file(after, e),
        ) by {
            if e < file.entry {
                assert(before[e] == after[e]);
                assert(cached_file(before, e) == cached_file(after, e));
                let k = choose|k: int| 0 <= k < olds.len() && olds[k] == cached_file(before, e);
                if k < at {
                    assert(files@[k] == olds[k]);
                } else {
                    assert(files@[k + 1] == olds[k]);
                }
            } else {
                assert(files@[at as int] == file);
            }
        }
    }
}

/// The models in the cache, the least recently used first.
pub fn get_cached_files_by_access_time(listing: &CacheListing) -> (r: Result<
    Vec<CachedFile>,
    InferaError,
>)
    ensures
        listing matches CacheListing::Unreadable(reason) ==> r is Err && r->Err_0@
            == ErrorView::IoError(reason@),
        !(listing is Unreadable) ==> r is Ok && are_by_access_time(listing.entries(), r->Ok_0@),
{
    let mut files: Vec<CachedFile> = Vec::new();
    match listing {
        CacheListing::Missing => {},
        CacheListing::Unreadable(reason) => {
            return Err(InferaError::IoError(reason.clone()));
        },
        CacheListing::Entries(entries) => {
            let mut i: usize = 0;
            while i < entries.len()
                invariant
                    i <= entries@.len(),
                    are_by_access_time(entries@.take(i as int), files@),
                decreases entries@.len() - i,
            {
                let e: &CacheEntry = &entries[i];
                let mut taken: bool = false;
                if e.is_file && file_name::has_onnx_extension(e.name.as_slice()) {
                    if let Some(m) = &e.metadata {
                        let accessed: i128 = match m.accessed {
                            Some(t) => t,
                            None => m.observed,
                        };
                        insert_by_access_time(
                            &mut files,
                            CachedFile { entry: i, accessed, size: m.size },
                            Ghost(entries@),
                        );
                        taken = true;
                    }
                }
                proof {
                    if !taken {
                        lemma_skip_entry(entries@, i as int, files@);
                    }
                }
                i = i + 1;
            }
            assert(entries@.take(i as int) == entries@);
        },
    }
    Ok(files)
}

/// An entry that is no model changes nothing.
proof fn lemma_skip_entry(entries: Seq<CacheEntry>, i: int, files: Seq<CachedFile>)
    requires
        0 <= i < entries.len(),
        !is_cached(entries[i]),
        are_by_access_time(entries.take(i), files),
    ensures
        are_by_access_time(entries.take(i + 1), files),
{
    let before = entries.take(i);
    let after = entries.take(i + 1);
    assert forall|k: int| 0 <= k < files.len() implies is_model_of(after, #[trigger] files[k]) by {
        assert(is_model_of(before, files[k]));
        assert(before[files[k].entry as int] == after[files[k].entry as int]);
    }
    assert forall|e: int| 0 <= e < after.len() && is_cached(#[trigger] after[e]) implies files.contains(
        cached_file(after, e),
    ) by {
        assert(e < i);
        assert(before[e] == after[e]);
        assert(cached_file(before, e) == cached_file(after, e));
    }
}

/// The size of models taken together.
pub open spec fn total_size(files: Seq<CachedFile>) -> int
    decreases files.len(),
{
    if files.len() == 0 {
        0
    } else {
        total_size(files.drop_last()) + files.last().size
    }
}

/// The size of the models among the entries.
pub open spec fn cached_size(entries: Seq<CacheEntry>) -> int
    decreases entries.len(),
{
    if entries.len() == 0 {
        0
    } else {
        cached_size(entries.drop_last()) + (if is_cached(entries.last()) {
            entries.last().metadata->0.size as int
        } else {
            0
        })
    }
}

/// The number of the models among the entries.
pub open spec fn cached_count(entries: Seq<CacheEntry>) -> int
    decreases entries.len(),
{
    if entries.len() == 0 {
        0
    } else {
        cached_count(entries.drop_last()) + (if is_cached(entries.last()) {
            1int
        } else {
            0
        })
    }
}

/// More entries do not make the models smaller or fewer.
proof fn lemma_cached_monotonic(entries: Seq<CacheEntry>, i: int)
    requires
        0 <= i <= entries.len(),
    ensures
        0 <= cached_size(entries.take(i)) <= cached_size(entries),
        0 <= cached_count(entries.take(i)) <= cached_count(entries),
        cached_count(entries) <= entries.len(),
    decreases entries.len(),
{
    if i == entries.len() {
        assert(entries.take(i) == entries);
        if i > 0 {
            lemma_cached_monotonic(entries.drop_last(), 0);
        }
    } else {
        assert(entries.take(i) == entries.drop_last().take(i));
        lemma_cached_monotonic(entries.drop_last(), i);
    }
}

/// What the models among the first entries and the next one come to.
proof fn lemma_cached_step(entries: Seq<CacheEntry>, i: int)
    requires
        0 <= i < entries.len(),
    ensures
        cached_size(entries.take(i + 1)) == cached_size(entries.take(i)) + (if is_cached(entries[i]) {
            entries[i].metadata->0.size as int
        } else {
            0
        }),
        cached_count(entries.take(i + 1)) == cached_count(entries.take(i)) + (if is_cached(
            entries[i],
        ) {
            1int
        } else {
            0
        }),
{
    assert(entries.take(i + 1).drop_last() == entries.take(i));
    assert(entries.take(i + 1).last() == entries[i]);
}

/// The size of a model, where the entry is one.
fn model_size(e: &CacheEntry) -> (r: Option<u64>)
    ensures
        r is Some <==> is_cached(*e),
        r matches Some(size) ==> size == e.metadata->0.size,
{
    if e.is_file && file_name::has_onnx_extension(e.name.as_slice()) {
        match &e.metadata {
            Some(m) => Some(m.size),
            None => None,
        }
    } else {
        None
    }
}

/// Tells whether the size of the models can be written as a 64-bit number.
pub fn cache_size_fits(listing: &CacheListing) -> (r: bool)
    ensures
        r == (cached_size(listing.entries()) <= u64::MAX),
{
    match listing {
        CacheListing::Entries(entries) => {
            let mut total: u64 = 0;
            let mut i: usize = 0;
            while i < entries.len()
                invariant
                    i <= entries@.len(),
                    listing.entries() == entries@,
                    total == cached_size(entries@.take(i as int)),
                decreases entries@.len() - i,
            {
                proof {
                    lemma_cached_step(entries@, i as int);
                    lemma_cached_monotonic(entries@, i + 1);
                }
                if let Some(size) = model_size(&entries[i]) {
                    match total.checked_add(size) {
                        Some(sum) => {
                            total = sum;
                        },
                        None => {
                            return false;
                        },
                    }
                }
                i = i + 1;
            }
            assert(entries@.take(i as int) == entries@);
            true
        },
        _ => true,
    }
}

/// The size and the number of the models in the cache.
pub fn cache_usage(listing: &CacheListing) -> (r: (u64, usize))
    requires
        cached_size(listing.entries()) <= u64::MAX,
    ensures
        r.0 == cached_size(listing.entries()),
        r.1 == cached_count(listing.entries()),
{
    let mut total: u64 = 0;
    let mut count: usize = 0;
    if let CacheListing::Entries(entries) = listing {
        let mut i: usize = 0;
        while i < entries.len()
            invariant
                i <= entries@.len(),
                cached_size(entries@) <= u64::MAX,
                total == cached_size(entries@.take(i as int)),
                count == cached_count(entries@.take(i as int)),
            decreases entries@.len() - i,
        {
            proof {
                lemma_cached_step(entries@, i as int);
                lemma_cached_monotonic(entries@, i + 1);
            }
            if let Some(size) = model_size(&entries[i]) {
                total = total + size;
                count = count + 1;
            }
            i = i + 1;
        }
        assert(entries@.take(i as int) == entries@);
    }
    (total, count)
}

/// The size of the models in the cache.
pub fn get_cache_size(listing: &CacheListing) -> (r: Result<u64, InferaError>)
    requires
        cached_size(listing.entries()) <= u64::MAX,
    ensures
        listing matches CacheListing::Unreadable(reason) ==> r is Err && r->Err_0@
            == ErrorView::IoError(reason@),
        !(listing is Unreadable) ==> r is Ok && r->Ok_0 == cached_size(listing.entries()),
{
    match listing {
        CacheListing::Unreadable(reason) => Err(InferaError::IoError(reason.clone())),
        _ => Ok(cache_usage(listing).0),
    }
}

/// A list of models that is in order is the only one: the order in which the
/// cache is evicted follows from the listing alone.
pub proof fn law_access_order_is_unique(
    entries: Seq<CacheEntry>,
    f1: Seq<CachedFile>,
    f2: Seq<CachedFile>,
)
    requires
        are_by_access_time(entries, f1),
        are_by_access_time(entries, f2),
    ensures
        f1 == f2,
{
    lemma_same_members(entries, f1, f2);
    lemma_same_members(entries, f2, f1);
    lemma_no_longer(f1, f2);
    lemma_no_longer(f2, f1);
    assert forall|i: int| 0 <= i < f1.len() implies f1[i] == f2[i] by {
        lemma_same_place(f1, f2, i);
    }
    assert(f1 =~= f2);
}

/// One list in order holds what another holds.
proof fn lemma_same_members(entries: Seq<CacheEntry>, f1: Seq<CachedFile>, f2: Seq<CachedFile>)
    requires
        are_by_access_time(entries, f1),
        are_by_access_time(entries, f2),
    ensures
        forall|i: int| 0 <= i < f1.len() ==> f2.contains(#[trigger] f1[i]),
{
    assert forall|i: int| 0 <= i < f1.len() implies f2.contains(#[trigger] f1[i]) by {
        assert(is_model_of(entries, f1[i]));
        assert(is_cached(entries[f1[i].entry as int]));
    }
}

/// Strictly ordered.
spec fn in_order(f: Seq<CachedFile>) -> bool {
    forall|i: int, j: int| 0 <= i < j < f.len() ==> precedes(#[trigger] f[i], #[trigger] f[j])
}

/// A strictly ordered list whose members another has is no longer than that one.
proof fn lemma_no_longer(f1: Seq<CachedFile>, f2: Seq<CachedFile>)
    requires
        in_order(f1),
        in_order(f2),
        forall|i: int| 0 <= i < f1.len() ==> f2.contains(#[trigger] f1[i]),
    ensures
        f1.len() <= f2.len(),
{
    assert(f1.no_duplicates());
    assert(f2.no_duplicates());
    f1.unique_seq_to_set();
    f2.unique_seq_to_set();
    assert(f1.to_set().subset_of(f2.to_set())) by {
        assert forall|x: CachedFile| f1.to_set().contains(x) implies f2.to_set().contains(x) by {
            let i = choose|i: int| 0 <= i < f1.len() && f1[i] == x;
            assert(f2.contains(f1[i]));
        }
    }
    vstd::set_lib::lemma_len_subset(f1.to_set(), f2.to_set());
}

/// Strictly ordered lists of the same members agree at each place.
proof fn lemma_same_place(f1: Seq<CachedFile>, f2: Seq<CachedFile>, i: int)
    requires
        in_order(f1),
        in_order(f2),
        f1.len() == f2.len(),
        forall|k: int| 0 <= k < f1.len() ==> f2.contains(#[trigger] f1[k]),
        forall|k: int| 0 <= k < f2.len() ==> f1.contains(#[trigger] f2[k]),
        0 <= i < f1.len(),
    ensures
        f1[i] == f2[i],
    decreases i,
{
    assert forall|k: int| 0 <= k < i implies f1[k] == f2[k] by {
        lemma_same_place(f1, f2, k);
    }
    assert(f2.contains(f1[i]));
    assert(f1.contains(f2[i]));
    let p = choose|p: int| 0 <= p < f2.len() && f2[p] == f1[i];
    let q = choose|q: int| 0 <= q < f1.len() && f1[q] == f2[i];
    if p < i {
        assert(f1[p] == f2[p]);
        assert(precedes(f1[p], f1[i]));
    } else if q < i {
        assert(f1[q] == f2[q]);
        assert(precedes(f2[q], f2[i]));
    } else if p > i && q > i {
        assert(precedes(f2[i], f2[p]));
        assert(precedes(f1[i], f1[q]));
    }
}

/// Taking one model away takes its size away.
proof fn lemma_total_size_remove(files: Seq<CachedFile>, at: int)
    requires
        0 <= at < files.len(),
    ensures
        total_size(files) == total_size(files.remove(at)) + files[at].size,
    decreases files.len(),
{
    if at == files.len() - 1 {
        assert(files.remove(at) == files.drop_last());
    } else {
        assert(files.remove(at).drop_last() == files.drop_last().remove(at));
        assert(files.remove(at).last() == files.last());
        lemma_total_size_remove(files.drop_last(), at);
    }
}

/// The sizes of the files among the entries, by name.
pub open spec fn sizes_by_name(entries: Seq<CacheEntry>) -> Map<Seq<u8>, u64>
    decreases entries.len(),
{
    if entries.len() == 0 {
        Map::empty()
    } else {
        let others = sizes_by_name(entries.drop_last());
        match entries.last().metadata {
            Some(m) if entries.last().is_file => others.insert(entries.last().name@, m.size),
            _ => others,
        }
    }
}

/// No two entries have the same name, as in every directory.
pub open spec fn have_distinct_names(entries: Seq<CacheEntry>) -> bool {
    forall|i: int, j: int|
        0 <= i < j < entries.len() ==> (#[trigger] entries[i]).name@ != (#[trigger] entries[j]).name@
}

/// The entry is a file with the name and the size.
pub open spec fn is_file_with(e: CacheEntry, name: Seq<u8>, size: u64) -> bool {
    e.is_file && e.name@ == name && (e.metadata matches Some(m) && m.size == size)
}

/// What the sizes by name tell is told of some entry.
pub(crate) proof fn lemma_named_file(entries: Seq<CacheEntry>, name: Seq<u8>)
    requires
        sizes_by_name(entries).contains_key(name),
    ensures
        exists|i: int|
            0 <= i < entries.len() && is_file_with(
                #[trigger] entries[i],
                name,
                sizes_by_name(entries)[name],
            ),
    decreases entries.len(),
{
    let rest = entries.drop_last();
    let last = entries.last();
    if last.is_file && last.metadata is Some && last.name@ == name {
        assert(is_file_with(entries[entries.len() - 1], name, sizes_by_name(entries)[name]));
    } else {
        lemma_named_file(rest, name);
        let i = choose|i: int|
            0 <= i < rest.len() && is_file_with(#[trigger] rest[i], name, sizes_by_name(rest)[name]);
        assert(entries[i] == rest[i]);
    }
}

/// Each file is told of under its name.
pub(crate) proof fn lemma_file_is_named(entries: Seq<CacheEntry>, i: int)
    requires
        have_distinct_names(entries),
        0 <= i < entries.len(),
        entries[i].is_file,
        entries[i].metadata is Some,
    ensures
        sizes_by_name(entries).contains_key(entries[i].name@),
        sizes_by_name(entries)[entries[i].name@] == entries[i].metadata->0.size,
    decreases entries.len(),
{
    let rest = entries.drop_last();
    if i < rest.len() {
        assert(rest[i] == entries[i]);
        assert(entries[i].name@ != entries[entries.len() - 1].name@);
        lemma_file_is_named(rest, i);
    }
}

/// Taking one entry away takes the size of its model away.
pub(crate) proof fn lemma_cached_size_remove(entries: Seq<CacheEntry>, at: int)
    requires
        0 <= at < entries.len(),
        is_cached(entries[at]),
    ensures
        cached_size(entries) == cached_size(entries.remove(at)) + entries[at].metadata->0.size,
    decreases entries.len(),
{
    if at == entries.len() - 1 {
        assert(entries.remove(at) == entries.drop_last());
    } else {
        assert(entries.remove(at).drop_last() == entries.drop_last().remove(at));
        assert(entries.remove(at).last() == entries.last());
        lemma_cached_size_remove(entries.drop_last(), at);
    }
}

/// Among the entries is a model with the name and the size.
pub(crate) open spec fn holds_model(entries: Seq<CacheEntry>, name: Seq<u8>, size: u64) -> bool {
    exists|i: int|
        0 <= i < entries.len() && is_cached(#[trigger] entries[i]) && is_file_with(
            entries[i],
            name,
            size,
        )
}

/// Entries with distinct names whose models are all among others take up no more
/// space than those.
pub(crate) proof fn lemma_fewer_models_are_smaller(some: Seq<CacheEntry>, all: Seq<CacheEntry>)
    requires
        have_distinct_names(some),
        forall|j: int|
            0 <= j < some.len() && is_cached(#[trigger] some[j]) ==> holds_model(
                all,
                some[j].name@,
                some[j].metadata->0.size,
            ),
    ensures
        cached_size(some) <= cached_size(all),
    decreases some.len(),
{
    lemma_cached_monotonic(all, 0);
    if some.len() > 0 {
        let rest = some.drop_last();
        let last = some.last();
        assert(last == some[some.len() - 1]);
        assert forall|j: int| 0 <= j < rest.len() && is_cached(#[trigger] rest[j]) implies holds_model(
            all,
            rest[j].name@,
            rest[j].metadata->0.size,
        ) by {
            assert(rest[j] == some[j]);
        }
        if is_cached(last) {
            let at = choose|i: int|
                0 <= i < all.len() && is_cached(#[trigger] all[i]) && is_file_with(
                    all[i],
                    last.name@,
                    last.metadata->0.size,
                );
            let fewer = all.remove(at);
            assert forall|j: int| 0 <= j < rest.len() && is_cached(#[trigger] rest[j]) implies holds_model(
                fewer,
                rest[j].name@,
                rest[j].metadata->0.size,
            ) by {
                assert(rest[j] == some[j]);
                let size = rest[j].metadata->0.size;
                let i = choose|i: int|
                    0 <= i < all.len() && is_cached(#[trigger] all[i]) && is_file_with(
                        all[i],
                        rest[j].name@,
                        size,
                    );
                assert(i != at);
                if i < at {
                    assert(fewer[i] == all[i]);
                } else {
                    assert(fewer[i - 1] == all[i]);
                }
            }
            lemma_fewer_models_are_smaller(rest, fewer);
            lemma_cached_size_remove(all, at);
        } else {
            lemma_fewer_models_are_smaller(rest, all);
        }
    }
}

/// The models in order, taken together, have the size of the cache.
pub proof fn law_ordered_models_make_up_the_cache(
    entries: Seq<CacheEntry>,
    files: Seq<CachedFile>,
)
    requires
        entries.len() <= usize::MAX,
        are_by_access_time(entries, files),
    ensures
        total_size(files) == cached_size(entries),
        files.len() == cached_count(entries),
    decreases entries.len(),
{
    if entries.len() == 0 {
        if files.len() > 0 {
            assert(is_model_of(entries, files[0]));
        }
    } else {
        let last = entries.len() - 1;
        let rest = entries.drop_last();
        if is_cached(entries[last]) {
            let file = cached_file(entries, last);
            let at = choose|k: int| 0 <= k < files.len() && files[k] == file;
            assert(files.contains(file));
            let fewer = files.remove(at);
            lemma_without_last(entries, files, at);
            law_ordered_models_make_up_the_cache(rest, fewer);
            lemma_total_size_remove(files, at);
        } else {
            assert forall|k: int| 0 <= k < files.len() implies is_model_of(rest, #[trigger] files[k]) by {
                assert(is_model_of(entries, files[k]));
                assert(files[k].entry != last);
                assert(rest[files[k].entry as int] == entries[files[k].entry as int]);
            }
            assert forall|e: int| 0 <= e < rest.len() && is_cached(#[trigger] rest[e]) implies files.contains(
                cached_file(rest, e),
            ) by {
                assert(rest[e] == entries[e]);
                assert(cached_file(rest, e) == cached_file(entries, e));
            }
            law_ordered_models_make_up_the_cache(rest, files);
        }
    }
}

/// Without the model of the last entry, the others are still in order.
proof fn lemma_without_last(entries: Seq<CacheEntry>, files: Seq<CachedFile>, at: int)
    requires
        0 < entries.len() <= usize::MAX,
        are_by_access_time(entries, files),
        0 <= at < files.len(),
        files[at] == cached_file(entries, entries.len() - 1),
    ensures
        are_by_access_time(entries.drop_last(), files.remove(at)),
{
    let last = entries.len() - 1;
    let rest = entries.drop_last();
    let fewer = files.remove(at);
    let index = |k: int| if k < at { k } else { k + 1 };
    assert forall|k: int| 0 <= k < fewer.len() implies #[trigger] fewer[k] == files[index(k)] by {}
    assert forall|i: int, j: int| 0 <= i < j < fewer.len() implies precedes(
        #[trigger] fewer[i],
        #[trigger] fewer[j],
    ) by {
        assert(precedes(files[index(i)], files[index(j)]));
    }
    assert forall|k: int| 0 <= k < fewer.len() implies is_model_of(rest, #[trigger] fewer[k]) by {
        let f = files[index(k)];
        assert(is_model_of(entries, f));
        if index(k) < at {
            assert(precedes(files[index(k)], files[at]));
        } else {
            assert(precedes(files[at], files[index(k)]));
        }
        assert(f.entry != last);
        assert(rest[f.entry as int] == entries[f.entry as int]);
    }
    assert forall|e: int| 0 <= e < rest.len() && is_cached(#[trigger] rest[e]) implies fewer.contains(
        cached_file(rest, e),
    ) by {
        assert(rest[e] == entries[e]);
        assert(cached_file(rest, e) == cached_file(entries, e));
        let k = choose|k: int| 0 <= k < files.len() && files[k] == cached_file(entries, e);
        assert(files.contains(cached_file(entries, e)));
        assert(k != at);
        if k < at {
            assert(fewer[k] == files[k]);
        } else {
            assert(fewer[k - 1] == files[k]);
        }
    }
}

/// An entry counts as a model exactly where it is a file that could be looked at
/// and whose name ends with `.onnx`, with something in front of that.
pub proof fn law_models_are_files_that_end_with_onnx(e: CacheEntry)
    ensures
        is_cached(e) <==> {
            &&& e.is_file
            &&& e.metadata is Some
            &&& e.name@.len() > 5
            &&& e.name@.skip(e.name@.len() - 5) == seq![
                '.' as u8,
                'o' as u8,
                'n' as u8,
                'n' as u8,
                'x' as u8,
            ]
        },
{
    file_name::law_models_end_with_onnx(e.name@);
}

/// The size and the number of the models of two listings add up. One entry counts
/// with its whole size, and once, where it is a model. No entries count nothing.
pub proof fn law_size_and_number_add_up(a: Seq<CacheEntry>, b: Seq<CacheEntry>, e: CacheEntry)
    ensures
        cached_size(a + b) == cached_size(a) + cached_size(b),
        cached_count(a + b) == cached_count(a) + cached_count(b),
        cached_size(seq![e]) == (if is_cached(e) {
            e.metadata->0.size as int
        } else {
            0
        }),
        cached_count(seq![e]) == (if is_cached(e) {
            1int
        } else {
            0
        }),
        cached_size(Seq::empty()) == 0,
        cached_count(Seq::empty()) == 0,
    decreases b.len(),
{
    assert(seq![e].drop_last() =~= Seq::<CacheEntry>::empty());
    assert(seq![e].last() == e);
    reveal_with_fuel(cached_size, 2);
    reveal_with_fuel(cached_count, 2);
    if b.len() == 0 {
        assert(a + b == a);
    } else {
        law_size_and_number_add_up(a, b.drop_last(), e);
        assert((a + b).drop_last() =~= a + b.drop_last());
        assert((a + b).last() == b.last());
    }
}

/// A listing has the entries that the directory gave. A directory that is not
/// there, or that could not be read, gave none.
pub proof fn law_listings_have_the_entries_given(entries: Vec<CacheEntry>, reason: String)
    ensures
        CacheListing::Entries(entries).entries() == entries@,
        CacheListing::Missing.entries() == Seq::<CacheEntry>::empty(),
        CacheListing::Unreadable(reason).entries() == Seq::<CacheEntry>::empty(),
{
}

/// When the file system says that the entry was last used, or else when the entry
/// was looked at.
pub open spec fn was_used_at(e: CacheEntry, time: i128) -> bool {
    e.metadata matches Some(m) && (m.accessed == Some(time) || (m.accessed is None && m.observed
        == time))
}

/// The models in order are the models of the listing, each once, with the time and
/// the size that the file system told.
pub proof fn law_each_model_is_in_order_once(entries: Seq<CacheEntry>, files: Seq<CachedFile>)
    requires
        entries.len() <= usize::MAX,
        are_by_access_time(entries, files),
    ensures
        forall|p: int|
            0 <= p < files.len() ==> {
                &&& (#[trigger] files[p]).entry < entries.len()
                &&& is_cached(entries[files[p].entry as int])
                &&& was_used_at(entries[files[p].entry as int], files[p].accessed)
                &&& entries[files[p].entry as int].metadata->0.size == files[p].size
            },
        forall|p: int, q: int|
            0 <= p < q < files.len() ==> (#[trigger] files[p]).entry != (#[trigger] files[q]).entry,
        forall|i: int|
            0 <= i < entries.len() && is_cached(#[trigger] entries[i]) ==> exists|p: int|
                0 <= p < files.len() && (#[trigger] files[p]).entry == i,
{
    assert forall|p: int, q: int| 0 <= p < q < files.len() implies (#[trigger] files[p]).entry != (
    #[trigger] files[q]).entry by {
        assert(is_model_of(entries, files[p]));
        assert(is_model_of(entries, files[q]));
        assert(precedes(files[p], files[q]));
    }
    assert forall|p: int| 0 <= p < files.len() implies {
        &&& (#[trigger] files[p]).entry < entries.len()
        &&& is_cached(entries[files[p].entry as int])
        &&& was_used_at(entries[files[p].entry as int], files[p].accessed)
        &&& entries[files[p].entry as int].metadata->0.size == files[p].size
    } by {
        assert(is_model_of(entries, files[p]));
    }
    assert forall|i: int| 0 <= i < entries.len() && is_cached(#[trigger] entries[i]) implies exists|
        p: int,
    |
        0 <= p < files.len() && (#[trigger] files[p]).entry == i by {
        assert(files.contains(cached_file(entries, i)));
        let p = choose|p: int| 0 <= p < files.len() && files[p] == cached_file(entries, i);
        assert(files[p].entry == i);
    }
}

/// Of two models, the one that was used earlier, as the file system tells it,
/// comes first. Where both were used at the same time, the one that is listed
/// earlier does.
pub proof fn law_models_used_earlier_come_first(
    entries: Seq<CacheEntry>,
    files: Seq<CachedFile>,
    i: int,
    ti: i128,
    j: int,
    tj: i128,
)
    requires
        entries.len() <= usize::MAX,
        are_by_access_time(entries, files),
        0 <= i < entries.len(),
        0 <= j < entries.len(),
        is_cached(entries[i]),
        is_cached(entries[j]),
        entries[i].metadata->0.accessed == Some(ti) || (entries[i].metadata->0.accessed is None
            && entries[i].metadata->0.observed == ti),
        entries[j].metadata->0.accessed == Some(tj) || (entries[j].metadata->0.accessed is None
            && entries[j].metadata->0.observed == tj),
        ti < tj || (ti == tj && i < j),
    ensures
        exists|p: int, q: int|
            0 <= p < q < files.len() && (#[trigger] files[p]).entry == i && (
            #[trigger] files[q]).entry == j,
{
    law_each_model_is_in_order_once(entries, files);
    let p = choose|p: int| 0 <= p < files.len() && (#[trigger] files[p]).entry == i;
    let q = choose|q: int| 0 <= q < files.len() && (#[trigger] files[q]).entry == j;
    assert(was_used_at(entries[files[p].entry as int], files[p].accessed));
    assert(was_used_at(entries[files[q].entry as int], files[q].accessed));
    if q < p {
        assert(precedes(files[q], files[p]));
    }
}

} // verus!
