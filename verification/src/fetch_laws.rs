//! What holds of the work on a remote model from its beginning to its end,
//! whatever the file system and the server answer.

use crate::cache::{self, CacheEntry, CachedFile};
use crate::cache_key;
use crate::config::Config;
use crate::download;
use crate::error::{ErrorView, InferaError};
use crate::eviction;
use crate::remote::{self, ActionView, EventView, FetchAction, FetchEvent, FetchView};
use crate::text;
use vstd::prelude::*;

verus! {

/// Where the work stands after the events.
pub open spec fn run(start: FetchView, events: Seq<EventView>) -> FetchView
    decreases events.len(),
{
    if events.len() == 0 {
        start
    } else {
        run(start, events.drop_last()).after(events.last())
    }
}

/// Each event comes of what was to be done.
pub open spec fn is_run(start: FetchView, events: Seq<EventView>) -> bool
    decreases events.len(),
{
    events.len() > 0 ==> {
        &&& is_run(start, events.drop_last())
        &&& remote::can_follow(run(start, events.drop_last()).next, events.last())
    }
}

/// How many downloads were made.
pub open spec fn downloads(events: Seq<EventView>) -> int
    decreases events.len(),
{
    if events.len() == 0 {
        0
    } else {
        downloads(events.drop_last()) + (if events.last() is Downloaded {
            1int
        } else {
            0
        })
    }
}

/// How many more events can come at most.
spec fn events_left(v: FetchView) -> int {
    let attempts_left = v.max_attempts - v.attempt;
    match v.next {
        ActionView::CheckDir => 2 * attempts_left + 7,
        ActionView::CreateDir => 2 * attempts_left + 6,
        ActionView::ReadCache => 2 * attempts_left + 5,
        ActionView::Download { url, etag, timeout_secs } => 2 * attempts_left + 5,
        ActionView::Wait(ms) => 2 * attempts_left + 4,
        ActionView::Measure => 4,
        ActionView::Evict(size) => 3,
        ActionView::Rename => 2,
        ActionView::WriteEtag(etag) => 1,
        ActionView::Touch => 1,
        ActionView::Finish(result) => 0,
    }
}

/// What a run keeps: its settings, the fit of what is to be done, the number of
/// downloads, and the room for more events.
proof fn lemma_run(start: FetchView, events: Seq<EventView>)
    requires
        start.is_reachable(),
        start.next is CheckDir,
        is_run(start, events),
    ensures
        run(start, events).is_reachable(),
        run(start, events).url == start.url,
        run(start, events).model == start.model,
        run(start, events).etag_file == start.etag_file,
        run(start, events).temp == start.temp,
        run(start, events).max_attempts == start.max_attempts,
        run(start, events).retry_delay_ms == start.retry_delay_ms,
        run(start, events).timeout_secs == start.timeout_secs,
        downloads(events) == run(start, events).attempt - (if run(start, events).next is Download {
            1int
        } else {
            0
        }),
        events.len() + events_left(run(start, events)) <= events_left(start),
        events_left(run(start, events)) >= 0,
    decreases events.len(),
{
    if events.len() > 0 {
        lemma_run(start, events.drop_last());
        run(start, events.drop_last()).lemma_after_is_reachable(events.last());
    }
}

/// The work always ends, after no more downloads than configured.
pub proof fn law_fetch_ends(
    config: Config,
    url: Seq<char>,
    events: Seq<EventView>,
)
    requires
        is_run(FetchView::start(config, url), events),
    ensures
        downloads(events) <= config.http_retry_attempts,
        events.len() <= 2 * config.http_retry_attempts + 7,
{
    lemma_run(FetchView::start(config, url), events);
}

/// Work that succeeds gives the name of the model, which follows from the URL
/// alone. Work that ends leaves the temporary file to be removed, with two
/// exceptions: the file was moved to the model's place, or the work ended before
/// there was one, because the cache directory could not be created.
pub proof fn law_fetch_leaves_no_partial_file(
    config: Config,
    url: Seq<char>,
    events: Seq<EventView>,
)
    requires
        is_run(FetchView::start(config, url), events),
        run(FetchView::start(config, url), events).next is Finish,
    ensures
        ({
            let end = run(FetchView::start(config, url), events);
            match end.next {
                ActionView::Finish(Ok(name)) => {
                    &&& name == cache_key::model_name(cache_key::url_digest(url))
                    &&& end.temp == cache_key::temp_name(cache_key::url_digest(url))
                    &&& end.committed == Some(events.last() is EtagWritten)
                },
                ActionView::Finish(Err(error)) => {
                    ||| end.committed == Some(false) && end.temp == cache_key::temp_name(
                        cache_key::url_digest(url),
                    )
                    ||| {
                        &&& end.committed is None
                        &&& events.last() matches EventView::DirCreated(Err(reason))
                        &&& error == ErrorView::CacheDirError(reason)
                    }
                },
                _ => false,
            }
        }),
{
    let start = FetchView::start(config, url);
    lemma_run(start, events);
    assert(events.len() > 0);
    lemma_run(start, events.drop_last());
}

/// Every download has failed so far.
pub open spec fn all_downloads_failed(events: Seq<EventView>) -> bool {
    forall|i: int|
        0 <= i < events.len() && events[i] is Downloaded ==> (#[trigger] events[i])->Downloaded_0 is Err
}

/// As long as every download fails, the work is on its way to the next one.
proof fn lemma_failing_run(start: FetchView, events: Seq<EventView>)
    requires
        start.is_reachable(),
        start.next is CheckDir,
        is_run(start, events),
        all_downloads_failed(events),
    ensures
        ({
            let v = run(start, events);
            match v.next {
                ActionView::CheckDir | ActionView::CreateDir | ActionView::ReadCache => {
                    downloads(events) == 0
                },
                ActionView::Download { url, etag, timeout_secs } => downloads(events) > 0 ==> v.last_error is Some,
                ActionView::Wait(ms) => v.last_error is Some,
                ActionView::Finish(result) => {
                    ||| events.last() is DirCreated
                    ||| {
                        &&& downloads(events) == start.max_attempts
                        &&& result is Err
                        &&& start.max_attempts > 0 ==> events.last() == EventView::Downloaded(
                            Err(result->Err_0),
                        )
                        &&& start.max_attempts == 0 ==> result->Err_0 == remote::unknown_error()
                    }
                },
                _ => false,
            }
        }),
        run(start, events).last_error is Some ==> downloads(events) > 0,
    decreases events.len(),
{
    lemma_run(start, events);
    if events.len() > 0 {
        let before = events.drop_last();
        assert forall|i: int| 0 <= i < before.len() && before[i] is Downloaded implies (
        #[trigger] before[i])->Downloaded_0 is Err by {
            assert(before[i] == events[i]);
        }
        lemma_run(start, before);
        lemma_failing_run(start, before);
        assert(events[events.len() - 1] == events.last());
    }
}

/// Where every download fails, the work fails after as many downloads as are
/// configured, with the error of the last of them. Where none is configured, it
/// says that the error is not known.
pub proof fn law_failing_fetch_reports_the_last_error(
    config: Config,
    url: Seq<char>,
    events: Seq<EventView>,
)
    requires
        is_run(FetchView::start(config, url), events),
        run(FetchView::start(config, url), events).next is Finish,
        all_downloads_failed(events),
        !(events.last() is DirCreated),
    ensures
        ({
            let end = run(FetchView::start(config, url), events);
            &&& end.next matches ActionView::Finish(Err(error))
            &&& downloads(events) == config.http_retry_attempts
            &&& config.http_retry_attempts > 0 ==> events.last() == EventView::Downloaded(Err(error))
            &&& config.http_retry_attempts == 0 ==> error == ErrorView::HttpRequestError(
                "Unknown download error"@,
            )
        }),
{
    lemma_failing_run(FetchView::start(config, url), events);
}

/// After a failed download that is not the last, the work waits for as long as
/// the backoff says, and then downloads again with the same entity tag.
pub proof fn law_failed_download_is_tried_again(
    config: Config,
    url: Seq<char>,
    events: Seq<EventView>,
    error: ErrorView,
)
    requires
        is_run(FetchView::start(config, url), events),
        run(FetchView::start(config, url), events).next is Download,
        downloads(events) + 1 < config.http_retry_attempts,
    ensures
        ({
            let start = FetchView::start(config, url);
            let failed = events.push(EventView::Downloaded(Err(error)));
            let waited = failed.push(EventView::Waited);
            &&& is_run(start, waited)
            &&& run(start, failed).next == ActionView::Wait(
                remote::backoff(config.http_retry_delay_ms, downloads(failed)),
            )
            &&& run(start, waited).next == run(start, events).next
        }),
{
    let start = FetchView::start(config, url);
    let failed = events.push(EventView::Downloaded(Err(error)));
    let waited = failed.push(EventView::Waited);
    lemma_run(start, events);
    assert(failed.drop_last() == events);
    assert(waited.drop_last() == failed);
    assert(is_run(start, failed));
    assert(downloads(failed) == downloads(events) + 1);
    assert(run(start, failed) == run(start, events).after(EventView::Downloaded(Err(error))));
    assert(run(start, waited) == run(start, failed).after(EventView::Waited));
}

/// The time to wait is the configured one at first, and doubles with each failed
/// attempt as far as a number can say.
pub proof fn law_backoff_doubles(retry_delay_ms: u64, attempt: int)
    requires
        attempt >= 1,
    ensures
        remote::backoff(retry_delay_ms, 1) == retry_delay_ms,
        2 * remote::backoff(retry_delay_ms, attempt) <= u64::MAX ==> remote::backoff(
            retry_delay_ms,
            attempt + 1,
        ) == 2 * remote::backoff(retry_delay_ms, attempt),
        2 * remote::backoff(retry_delay_ms, attempt) > u64::MAX ==> remote::backoff(
            retry_delay_ms,
            attempt + 1,
        ) == u64::MAX,
{
    vstd::arithmetic::power2::lemma2_to64();
    assert(vstd::arithmetic::power2::pow2((1 - 1) as nat) == 1);
    assert(retry_delay_ms * 1 == retry_delay_ms);
    vstd::arithmetic::power2::lemma_pow2_unfold(attempt as nat);
    let p = vstd::arithmetic::power2::pow2((attempt - 1) as nat) as int;
    assert(retry_delay_ms * (2 * p) == 2 * (retry_delay_ms * p)) by (nonlinear_arith);
    assert(retry_delay_ms * p >= 0) by (nonlinear_arith)
        requires
            p >= 0,
    ;
}

/// A file gets to the model's place in the cache only once a download of it is
/// complete, its size is known and there is room for that size. A download that
/// breaks off never gets there.
pub proof fn law_only_complete_downloads_are_cached(
    config: Config,
    url: Seq<char>,
    events: Seq<EventView>,
)
    requires
        is_run(FetchView::start(config, url), events),
        run(FetchView::start(config, url), events).next is Rename,
    ensures
        ({
            let start = FetchView::start(config, url);
            let n = events.len() as int;
            &&& n >= 3
            &&& events[n - 3] matches EventView::Downloaded(Ok(Some((false, etag))))
            &&& run(start, events).new_etag == etag
            &&& events[n - 2] matches EventView::Measured(Ok(size))
            &&& run(start, events.take(n - 1)).next == ActionView::Evict(size)
            &&& events[n - 1] matches EventView::Evicted(Ok(_))
        }),
{
    let start = FetchView::start(config, url);
    let n = events.len() as int;
    reveal_with_fuel(is_run, 4);
    reveal_with_fuel(run, 4);
    let e1 = events.drop_last();
    lemma_run(start, e1);
    assert(events.last() is Evicted);
    assert(e1.len() > 0);
    let e2 = e1.drop_last();
    lemma_run(start, e2);
    assert(e2.len() > 0);
    let e3 = e2.drop_last();
    lemma_run(start, e3);
    assert(e1 == events.take(n - 1));
    assert(e1.last() == events[n - 2]);
    assert(e2.last() == events[n - 3]);
}

/// Work that succeeds has ended in one of two ways. Either the server said that
/// the model in the cache is current, and its access time was updated. Or a
/// complete download was moved to the model's place, and then its entity tag was
/// written.
pub proof fn law_successful_fetch(
    config: Config,
    url: Seq<char>,
    events: Seq<EventView>,
)
    requires
        is_run(FetchView::start(config, url), events),
        run(FetchView::start(config, url), events).next matches
            ActionView::Finish(Ok(_)),
    ensures
        ({
            let start = FetchView::start(config, url);
            let n = events.len() as int;
            ||| {
                &&& n >= 2
                &&& events[n - 2] matches EventView::Downloaded(Ok(Some((true, etag))))
                &&& events[n - 1] matches EventView::Touched(Ok(_))
            }
            ||| {
                &&& n >= 5
                &&& events[n - 5] matches EventView::Downloaded(Ok(Some((false, etag))))
                &&& run(start, events.take(n - 2)).next == ActionView::Rename
                &&& events[n - 2] matches EventView::Renamed(Ok(_))
                &&& run(start, events.take(n - 1)).next == ActionView::WriteEtag(etag)
                &&& events[n - 1] matches EventView::EtagWritten(Ok(_))
            }
        }),
{
    let start = FetchView::start(config, url);
    let n = events.len() as int;
    reveal_with_fuel(is_run, 4);
    reveal_with_fuel(run, 4);
    let e1 = events.drop_last();
    lemma_run(start, e1);
    assert(e1 == events.take(n - 1));
    assert(e1.len() > 0);
    let e2 = e1.drop_last();
    lemma_run(start, e2);
    assert(e1.last() == events[n - 2]);
    if events.last() is EtagWritten {
        assert(e2 == events.take(n - 2));
        law_only_complete_downloads_are_cached(config, url, e2);
        assert(e2[e2.len() - 3] == events[n - 5]);
    }
}

/// The files of the cache directory, by name, after a fetch whose download was
/// moved to the cache: the evicted models are gone, the download has become the
/// model, and the entity tag is written.
pub open spec fn files_after_fetch(
    before: Map<Seq<u8>, u64>,
    evicted: Set<Seq<u8>>,
    digest: Seq<u8>,
    size: u64,
    etag_size: u64,
) -> Map<Seq<u8>, u64> {
    before.remove_keys(evicted).remove(
        vstd::utf8::encode_utf8(cache_key::temp_name(digest)),
    ).insert(vstd::utf8::encode_utf8(cache_key::model_name(digest)), size).insert(
        vstd::utf8::encode_utf8(cache_key::etag_name(digest)),
        etag_size,
    )
}

/// A fetch whose download was moved to the cache made room for the size that the
/// download was found to have. Once it is over, with nothing else written in
/// between, the new model is in the cache with that size. The models in the cache
/// together are within the limit, unless the new one alone is over it. Where the
/// cache had room as it was, no model has gone but the one that was replaced.
pub proof fn law_fetched_model_is_in_a_cache_within_the_limit(
    config: Config,
    url: Seq<char>,
    events: Seq<EventView>,
    size: u64,
    before: Seq<CacheEntry>,
    files: Seq<CachedFile>,
    evicted: int,
    etag_size: u64,
    after: Seq<CacheEntry>,
)
    requires
        is_run(FetchView::start(config, url), events),
        run(FetchView::start(config, url), events).next matches ActionView::Finish(Ok(_)),
        events.last() is EtagWritten,
        run(FetchView::start(config, url), events.take(events.len() - 3)).next
            == ActionView::Evict(size),
        cache_key::url_digest(url).len() == 32,
        before.len() <= usize::MAX,
        cache::have_distinct_names(before),
        cache::are_by_access_time(before, files),
        eviction::is_number_evicted(
            before,
            files,
            config.cache_size_limit as int,
            size as int,
            evicted,
        ),
        cache::have_distinct_names(after),
        cache::sizes_by_name(after) == files_after_fetch(
            cache::sizes_by_name(before),
            eviction::evicted_names(before, files, evicted),
            cache_key::url_digest(url),
            size,
            etag_size,
        ),
    ensures
        events[events.len() - 4] == EventView::Measured(Ok(size)),
        exists|j: int|
            0 <= j < after.len() && cache::is_cached(#[trigger] after[j]) && cache::is_file_with(
                after[j],
                vstd::utf8::encode_utf8(cache_key::model_name(cache_key::url_digest(url))),
                size,
            ),
        size <= config.cache_size_limit ==> cache::cached_size(after) <= config.cache_size_limit,
        cache::cached_size(before) + size <= config.cache_size_limit ==> forall|i: int|
            #![trigger before[i]]
            0 <= i < before.len() && cache::is_cached(before[i]) && before[i].name@
                != vstd::utf8::encode_utf8(cache_key::model_name(cache_key::url_digest(url)))
                ==> cache::sizes_by_name(after).contains_pair(
                before[i].name@,
                before[i].metadata->0.size,
            ),
{
    let start = FetchView::start(config, url);
    let n = events.len() as int;
    law_successful_fetch(config, url, events);
    let moved = events.take(n - 2);
    assert(is_run(start, moved)) by {
        reveal_with_fuel(is_run, 3);
        assert(events.drop_last().drop_last() =~= moved);
    }
    law_only_complete_downloads_are_cached(config, url, moved);
    assert(moved[moved.len() - 2] == events[n - 4]);
    assert(moved.take(moved.len() - 1) =~= events.take(n - 3));
    let digest = cache_key::url_digest(url);
    let model = vstd::utf8::encode_utf8(cache_key::model_name(digest));
    let etag = vstd::utf8::encode_utf8(cache_key::etag_name(digest));
    let gone = eviction::evicted_names(before, files, evicted);
    cache_key::law_only_the_model_counts_as_cached(digest);
    assert(model != etag);
    let named = cache::sizes_by_name(after);
    assert(named.contains_pair(model, size));
    cache::lemma_named_file(after, model);
    let at = choose|j: int| 0 <= j < after.len() && cache::is_file_with(#[trigger] after[j], model, size);
    assert(cache::is_cached(after[at]));
    if size <= config.cache_size_limit {
        assert forall|j: int|
            0 <= j < after.len() && j != at && cache::is_cached(#[trigger] after[j]) implies cache::holds_model(
            before,
            after[j].name@,
            after[j].metadata->0.size,
        ) && !gone.contains(after[j].name@) by {
            let name = after[j].name@;
            cache::lemma_file_is_named(after, j);
            assert(name != model);
            assert(name != etag);
            assert(cache::sizes_by_name(before).contains_key(name));
            cache::lemma_named_file(before, name);
            let i = choose|i: int|
                0 <= i < before.len() && cache::is_file_with(
                    #[trigger] before[i],
                    name,
                    cache::sizes_by_name(before)[name],
                );
            assert(cache::is_cached(before[i]));
        }
        eviction::lemma_room_for_new_model(
            before,
            files,
            config.cache_size_limit as int,
            size,
            evicted,
            model,
            after,
            at,
        );
    }
    if cache::cached_size(before) + size <= config.cache_size_limit {
        assert forall|i: int|
            #![trigger before[i]]
            0 <= i < before.len() && cache::is_cached(before[i]) && before[i].name@
                != model implies named.contains_pair(before[i].name@, before[i].metadata->0.size) by {
            cache::lemma_file_is_named(before, i);
            assert(!gone.contains(before[i].name@));
        }
    }
}

/// Two fetches that succeed give the same name where they were for the same URL,
/// and another where the digests of the URLs differ. A name is the 64 digits of
/// the digest with the extension `onnx`.
pub proof fn law_same_url_gives_the_same_model(
    config1: Config,
    url1: Seq<char>,
    events1: Seq<EventView>,
    name1: Seq<char>,
    config2: Config,
    url2: Seq<char>,
    events2: Seq<EventView>,
    name2: Seq<char>,
)
    requires
        is_run(FetchView::start(config1, url1), events1),
        run(FetchView::start(config1, url1), events1).next == ActionView::Finish(Ok(name1)),
        cache_key::url_digest(url1).len() == 32,
        is_run(FetchView::start(config2, url2), events2),
        run(FetchView::start(config2, url2), events2).next == ActionView::Finish(Ok(name2)),
        cache_key::url_digest(url2).len() == 32,
    ensures
        cache_key::is_key_with(name1, ".onnx"@),
        cache_key::is_key_with(name2, ".onnx"@),
        url1 == url2 ==> name1 == name2,
        name1 == name2 <==> cache_key::url_digest(url1) == cache_key::url_digest(url2),
{
    law_fetch_leaves_no_partial_file(config1, url1, events1);
    law_fetch_leaves_no_partial_file(config2, url2, events2);
    cache_key::law_names_begin_with_64_digits(cache_key::url_digest(url1));
    cache_key::law_names_begin_with_64_digits(cache_key::url_digest(url2));
    cache_key::law_digests_do_not_share_files(
        cache_key::url_digest(url1),
        cache_key::url_digest(url2),
    );
}

/// The entity tag that requests name is that of a model in the cache.
proof fn lemma_etag_of_present_model(start: FetchView, events: Seq<EventView>)
    requires
        start.is_reachable(),
        start.next is CheckDir,
        start.etag.len() == 0,
        is_run(start, events),
        run(start, events).etag.len() > 0,
    ensures
        exists|i: int|
            0 <= i < events.len() && (#[trigger] events[i] matches EventView::CacheRead {
                model_present,
                etag: Some(etag),
            } && model_present && run(start, events).etag == text::trimmed(etag)),
    decreases events.len(),
{
    let before = events.drop_last();
    lemma_run(start, before);
    if events.last() is CacheRead {
        assert(events[events.len() - 1] == events.last());
    } else {
        lemma_etag_of_present_model(start, before);
        let i = choose|i: int|
            0 <= i < before.len() && (#[trigger] before[i] matches EventView::CacheRead {
                model_present,
                etag: Some(etag),
            } && model_present && run(start, before).etag == text::trimmed(etag));
        assert(events[i] == before[i]);
    }
}

/// A request names an entity tag only where the model was seen in the cache, and
/// then that of the model. So the answer that nothing changed, which needs a tag
/// to be named, never stands for a model that is not there.
pub proof fn law_etag_is_named_only_for_a_model_in_the_cache(
    config: Config,
    url: Seq<char>,
    events: Seq<EventView>,
)
    requires
        is_run(FetchView::start(config, url), events),
        run(FetchView::start(config, url), events).next matches
            ActionView::Download { url: asked, etag, timeout_secs } && etag.len() > 0,
    ensures
        exists|i: int|
            0 <= i < events.len() && (#[trigger] events[i] matches EventView::CacheRead {
                model_present,
                etag: Some(etag),
            } && model_present && run(
                FetchView::start(config, url),
                events,
            ).next == (ActionView::Download {
                url,
                etag: text::trimmed(etag),
                timeout_secs: config.http_timeout_secs,
            })),
{
    let start = FetchView::start(config, url);
    lemma_run(start, events);
    lemma_etag_of_present_model(start, events);
    let i = choose|i: int|
        0 <= i < events.len() && (#[trigger] events[i] matches EventView::CacheRead {
            model_present,
            etag: Some(etag),
        } && model_present && run(start, events).etag == text::trimmed(etag));
    assert(events[i] is CacheRead);
}

/// What one fetch wrote the next one reads back: after a fetch whose download
/// was moved to the cache, and as long as the model and its entity tag are there,
/// the next request for the URL names that tag. Once the model is gone from the
/// cache, no tag is named, and the model comes whole.
pub proof fn law_next_fetch_names_the_written_etag(
    config: Config,
    url: Seq<char>,
    first: Seq<EventView>,
    model_present: bool,
)
    requires
        config.http_retry_attempts > 0,
        is_run(FetchView::start(config, url), first),
        run(FetchView::start(config, url), first).next is WriteEtag,
    ensures
        ({
            let start = FetchView::start(config, url);
            let written = run(start, first).next->WriteEtag_0;
            let second = seq![
                EventView::DirChecked(true),
                EventView::CacheRead { model_present, etag: Some(written) },
            ];
            &&& first.len() >= 4
            &&& first[first.len() - 4] == EventView::Downloaded(Ok(Some((false, written))))
            &&& is_run(start, second)
            &&& run(start, second).next == (ActionView::Download {
                url,
                etag: if model_present {
                    text::trimmed(written)
                } else {
                    Seq::empty()
                },
                timeout_secs: config.http_timeout_secs,
            })
        }),
{
    let start = FetchView::start(config, url);
    let before = first.drop_last();
    lemma_run(start, before);
    law_only_complete_downloads_are_cached(config, url, before);
    assert(before[before.len() - 3] == first[first.len() - 4]);
    let written = run(start, first).next->WriteEtag_0;
    let second = seq![
        EventView::DirChecked(true),
        EventView::CacheRead { model_present, etag: Some(written) },
    ];
    reveal_with_fuel(is_run, 3);
    reveal_with_fuel(run, 3);
    assert(second.drop_last() =~= seq![EventView::DirChecked(true)]);
    assert(second.drop_last().drop_last() =~= Seq::<EventView>::empty());
    assert(second.drop_last().last() == EventView::DirChecked(true));
    assert(second.last() == (EventView::CacheRead { model_present, etag: Some(written) }));
}

/// One more event of what was to be done makes a longer run.
proof fn lemma_one_more(start: FetchView, events: Seq<EventView>, event: EventView)
    requires
        is_run(start, events),
        remote::can_follow(run(start, events).next, event),
    ensures
        is_run(start, events.push(event)),
        run(start, events.push(event)) == run(start, events).after(event),
{
    assert(events.push(event).drop_last() =~= events);
    assert(events.push(event).last() == event);
}

/// The work begins with a look at the cache directory, which is created where it
/// is not there. Then it sees what the cache holds, and asks for the URL. It names
/// the entity tag that was kept, without the white space around it, where the
/// model is there.
pub proof fn law_fetch_begins(
    config: Config,
    url: Seq<char>,
    dir_exists: bool,
    model_present: bool,
    etag: Option<Seq<char>>,
)
    requires
        config.http_retry_attempts > 0,
    ensures
        ({
            let start = FetchView::start(config, url);
            let ready = if dir_exists {
                seq![EventView::DirChecked(true)]
            } else {
                seq![EventView::DirChecked(false), EventView::DirCreated(Ok(()))]
            };
            let read = ready.push(EventView::CacheRead { model_present, etag });
            &&& start.next == ActionView::CheckDir
            &&& run(start, seq![EventView::DirChecked(false)]).next == ActionView::CreateDir
            &&& is_run(start, read)
            &&& run(start, ready).next == ActionView::ReadCache
            &&& run(start, read).next == (ActionView::Download {
                url,
                etag: if model_present && etag is Some {
                    text::trimmed(etag->0)
                } else {
                    Seq::empty()
                },
                timeout_secs: config.http_timeout_secs,
            })
        }),
{
    let start = FetchView::start(config, url);
    let none = Seq::<EventView>::empty();
    let checked = none.push(EventView::DirChecked(dir_exists));
    lemma_one_more(start, none, EventView::DirChecked(dir_exists));
    lemma_one_more(start, none, EventView::DirChecked(false));
    assert(seq![EventView::DirChecked(false)] =~= none.push(EventView::DirChecked(false)));
    let ready = if dir_exists {
        seq![EventView::DirChecked(true)]
    } else {
        seq![EventView::DirChecked(false), EventView::DirCreated(Ok(()))]
    };
    if dir_exists {
        assert(ready =~= checked);
    } else {
        lemma_one_more(start, checked, EventView::DirCreated(Ok(())));
        assert(ready =~= checked.push(EventView::DirCreated(Ok(()))));
    }
    lemma_one_more(start, ready, EventView::CacheRead { model_present, etag });
}

/// A cache directory that cannot be created ends the work, for the reason given.
pub proof fn law_directory_that_cannot_be_created_ends_the_work(
    config: Config,
    url: Seq<char>,
    events: Seq<EventView>,
    reason: Seq<char>,
)
    requires
        is_run(FetchView::start(config, url), events),
        run(FetchView::start(config, url), events).next is CreateDir,
    ensures
        ({
            let failed = events.push(EventView::DirCreated(Err(reason)));
            &&& is_run(FetchView::start(config, url), failed)
            &&& run(FetchView::start(config, url), failed).next == ActionView::Finish(
                Err(ErrorView::CacheDirError(reason)),
            )
        }),
{
    lemma_one_more(FetchView::start(config, url), events, EventView::DirCreated(Err(reason)));
}

/// A download that brings the file is stored, whatever failed before it: its size
/// is measured, room is made for that size, the file is moved to the model's
/// place, the entity tag that came with it is written, and the work succeeds with
/// the name of the model.
pub proof fn law_downloaded_model_is_stored(
    config: Config,
    url: Seq<char>,
    events: Seq<EventView>,
    etag: Seq<char>,
    size: u64,
)
    requires
        is_run(FetchView::start(config, url), events),
        run(FetchView::start(config, url), events).next is Download,
    ensures
        ({
            let start = FetchView::start(config, url);
            let downloaded = events.push(EventView::Downloaded(Ok(Some((false, etag)))));
            let measured = downloaded.push(EventView::Measured(Ok(size)));
            let evicted = measured.push(EventView::Evicted(Ok(())));
            let renamed = evicted.push(EventView::Renamed(Ok(())));
            let written = renamed.push(EventView::EtagWritten(Ok(())));
            &&& is_run(start, written)
            &&& run(start, downloaded).next == ActionView::Measure
            &&& run(start, measured).next == ActionView::Evict(size)
            &&& run(start, evicted).next == ActionView::Rename
            &&& run(start, renamed).next == ActionView::WriteEtag(etag)
            &&& run(start, written).next == ActionView::Finish(
                Ok(cache_key::model_name(cache_key::url_digest(url))),
            )
        }),
{
    let start = FetchView::start(config, url);
    let downloaded = events.push(EventView::Downloaded(Ok(Some((false, etag)))));
    let measured = downloaded.push(EventView::Measured(Ok(size)));
    let evicted = measured.push(EventView::Evicted(Ok(())));
    let renamed = evicted.push(EventView::Renamed(Ok(())));
    lemma_run(start, events);
    lemma_one_more(start, events, EventView::Downloaded(Ok(Some((false, etag)))));
    lemma_one_more(start, downloaded, EventView::Measured(Ok(size)));
    lemma_one_more(start, measured, EventView::Evicted(Ok(())));
    lemma_one_more(start, evicted, EventView::Renamed(Ok(())));
    lemma_one_more(start, renamed, EventView::EtagWritten(Ok(())));
}

/// An answer that the model in the cache is current ends the work well, whatever
/// failed before it, once the access time of the model is updated. Nothing is
/// measured, evicted or written.
pub proof fn law_current_model_is_taken_from_the_cache(
    config: Config,
    url: Seq<char>,
    events: Seq<EventView>,
    etag: Seq<char>,
)
    requires
        is_run(FetchView::start(config, url), events),
        run(FetchView::start(config, url), events).next is Download,
    ensures
        ({
            let start = FetchView::start(config, url);
            let answered = events.push(EventView::Downloaded(Ok(Some((true, etag)))));
            let touched = answered.push(EventView::Touched(Ok(())));
            &&& is_run(start, touched)
            &&& run(start, answered).next == ActionView::Touch
            &&& run(start, touched).next == ActionView::Finish(
                Ok(cache_key::model_name(cache_key::url_digest(url))),
            )
        }),
{
    let start = FetchView::start(config, url);
    let answered = events.push(EventView::Downloaded(Ok(Some((true, etag)))));
    lemma_run(start, events);
    lemma_one_more(start, events, EventView::Downloaded(Ok(Some((true, etag)))));
    lemma_one_more(start, answered, EventView::Touched(Ok(())));
}

/// The event tells that a step behind the download failed, with the error.
pub open spec fn step_failed(event: EventView, error: ErrorView) -> bool {
    match event {
        EventView::Measured(Err(reason))
        | EventView::Renamed(Err(reason))
        | EventView::EtagWritten(Err(reason)) => error == ErrorView::IoError(reason),
        EventView::Evicted(Err(e)) | EventView::Touched(Err(e)) => error == e,
        _ => false,
    }
}

/// A failure behind the download ends the work at once, with its error. There is
/// no further attempt.
pub proof fn law_failure_behind_the_download_ends_the_work(
    config: Config,
    url: Seq<char>,
    events: Seq<EventView>,
    event: EventView,
    error: ErrorView,
)
    requires
        is_run(FetchView::start(config, url), events),
        step_failed(event, error),
        match run(FetchView::start(config, url), events).next {
            ActionView::Measure => event is Measured,
            ActionView::Evict(_) => event is Evicted,
            ActionView::Rename => event is Renamed,
            ActionView::WriteEtag(_) => event is EtagWritten,
            ActionView::Touch => event is Touched,
            _ => false,
        },
    ensures
        is_run(FetchView::start(config, url), events.push(event)),
        run(FetchView::start(config, url), events.push(event)).next == ActionView::Finish(
            Err(error),
        ),
{
    lemma_one_more(FetchView::start(config, url), events, event);
}

/// A failed download that is the last one configured ends the work with its error.
pub proof fn law_last_failed_download_ends_the_work(
    config: Config,
    url: Seq<char>,
    events: Seq<EventView>,
    error: ErrorView,
)
    requires
        is_run(FetchView::start(config, url), events),
        run(FetchView::start(config, url), events).next is Download,
        downloads(events) + 1 == config.http_retry_attempts,
    ensures
        ({
            let failed = events.push(EventView::Downloaded(Err(error)));
            &&& is_run(FetchView::start(config, url), failed)
            &&& run(FetchView::start(config, url), failed).next == ActionView::Finish(Err(error))
        }),
{
    let start = FetchView::start(config, url);
    lemma_run(start, events);
    lemma_one_more(start, events, EventView::Downloaded(Err(error)));
}

/// The error of the last download that failed, if one did.
pub open spec fn last_failure(events: Seq<EventView>) -> Option<ErrorView>
    decreases events.len(),
{
    if events.len() == 0 {
        None
    } else {
        match events.last() {
            EventView::Downloaded(Err(error)) => Some(error),
            _ => last_failure(events.drop_last()),
        }
    }
}

/// Until the work ends, the error of the last download that failed is kept.
proof fn lemma_last_failure_is_kept(start: FetchView, events: Seq<EventView>)
    requires
        start.is_reachable(),
        start.next is CheckDir,
        is_run(start, events),
        !(run(start, events).next is Finish),
    ensures
        run(start, events).last_error == last_failure(events),
    decreases events.len(),
{
    if events.len() > 0 {
        lemma_run(start, events.drop_last());
        lemma_last_failure_is_kept(start, events.drop_last());
    }
}

/// A download without a result counts as an attempt. The next one follows at once
/// where one is left. Else the work fails with the error of the last download that
/// failed, or says that the error is not known.
pub proof fn law_download_without_a_result_is_tried_again(
    config: Config,
    url: Seq<char>,
    events: Seq<EventView>,
)
    requires
        is_run(FetchView::start(config, url), events),
        run(FetchView::start(config, url), events).next is Download,
    ensures
        ({
            let start = FetchView::start(config, url);
            let empty = events.push(EventView::Downloaded(Ok(None)));
            &&& is_run(start, empty)
            &&& downloads(events) + 1 < config.http_retry_attempts ==> run(start, empty).next == run(
                start,
                events,
            ).next
            &&& downloads(events) + 1 == config.http_retry_attempts ==> run(
                start,
                empty,
            ).next == ActionView::Finish(
                Err(
                    match last_failure(events) {
                        Some(error) => error,
                        None => ErrorView::HttpRequestError("Unknown download error"@),
                    },
                ),
            )
        }),
{
    let start = FetchView::start(config, url);
    lemma_last_failure_is_kept(start, events);
    lemma_run(start, events);
    lemma_one_more(start, events, EventView::Downloaded(Ok(None)));
}

/// Where no download is configured, the work fails, whatever the cache holds, and
/// says that the error is not known.
pub proof fn law_no_attempts_is_an_unknown_error(
    config: Config,
    url: Seq<char>,
    events: Seq<EventView>,
    model_present: bool,
    etag: Option<Seq<char>>,
)
    requires
        config.http_retry_attempts == 0,
        is_run(FetchView::start(config, url), events),
        run(FetchView::start(config, url), events).next is ReadCache,
    ensures
        run(
            FetchView::start(config, url),
            events.push(EventView::CacheRead { model_present, etag }),
        ).next == ActionView::Finish(
            Err(ErrorView::HttpRequestError("Unknown download error"@)),
        ),
{
    let start = FetchView::start(config, url);
    lemma_run(start, events);
    lemma_one_more(start, events, EventView::CacheRead { model_present, etag });
}

/// Once there is a request, the entity tag to name does not change.
proof fn lemma_etag_stays(start: FetchView, events: Seq<EventView>, k: int)
    requires
        start.is_reachable(),
        start.next is CheckDir,
        is_run(start, events),
        0 <= k <= events.len(),
        run(start, events.take(k)).next is Download,
        is_run(start, events.take(k)),
    ensures
        run(start, events).etag == run(start, events.take(k)).etag,
        run(start, events).attempt > 0,
    decreases events.len(),
{
    lemma_run(start, events.take(k));
    if k == events.len() {
        assert(events.take(k) =~= events);
    } else {
        let before = events.drop_last();
        assert(before.take(k) =~= events.take(k));
        lemma_run(start, before);
        lemma_etag_stays(start, before, k);
    }
}

/// The first events of a run are a run.
proof fn lemma_beginning_of_a_run(start: FetchView, events: Seq<EventView>, k: int)
    requires
        is_run(start, events),
        0 <= k <= events.len(),
    ensures
        is_run(start, events.take(k)),
    decreases events.len(),
{
    if k == events.len() {
        assert(events.take(k) =~= events);
    } else {
        assert(events.drop_last().take(k) =~= events.take(k));
        lemma_beginning_of_a_run(start, events.drop_last(), k);
    }
}

/// Every request of the work asks for the URL, all of it, within the configured
/// time. A later request is the same as an earlier one.
pub proof fn law_every_request_asks_for_the_url(
    config: Config,
    url: Seq<char>,
    events: Seq<EventView>,
    earlier: int,
)
    requires
        is_run(FetchView::start(config, url), events),
        run(FetchView::start(config, url), events).next is Download,
        0 <= earlier <= events.len(),
        run(FetchView::start(config, url), events.take(earlier)).next is Download,
    ensures
        run(FetchView::start(config, url), events).next matches ActionView::Download {
            url: asked,
            etag,
            timeout_secs,
        } && asked == url && timeout_secs == config.http_timeout_secs,
        run(FetchView::start(config, url), events).next == run(
            FetchView::start(config, url),
            events.take(earlier),
        ).next,
{
    let start = FetchView::start(config, url);
    lemma_beginning_of_a_run(start, events, earlier);
    lemma_run(start, events);
    lemma_run(start, events.take(earlier));
    lemma_etag_stays(start, events, earlier);
}

/// From the first request until the work ends the temporary file is to be removed
/// should the work break off. Its name and those of the model and of the entity
/// tag are the digits of the SHA-256 digest of the URL and a suffix.
pub proof fn law_partial_file_is_guarded_while_the_work_goes_on(
    config: Config,
    url: Seq<char>,
    events: Seq<EventView>,
)
    requires
        is_run(FetchView::start(config, url), events),
    ensures
        ({
            let now = run(FetchView::start(config, url), events);
            let key = cache_key::hex_text(cache_key::sha256(vstd::utf8::encode_utf8(url)));
            &&& now.next is Download || now.next is Wait || now.next is Measure || now.next is Evict
                || now.next is Rename || now.next is WriteEtag || now.next is Touch
                ==> now.committed == Some(false)
            &&& now.model == key + ".onnx"@
            &&& now.etag_file == key + ".etag"@
            &&& now.temp == key + ".onnx.part"@
        }),
{
    lemma_run(FetchView::start(config, url), events);
}

/// Events are seen as they are.
pub proof fn law_events_are_seen_as_they_are(
    flag: bool,
    text: String,
    size: u64,
    error: InferaError,
    outcome: Result<Option<(bool, String)>, InferaError>,
)
    ensures
        FetchEvent::DirChecked(flag)@ == EventView::DirChecked(flag),
        FetchEvent::DirCreated(Ok(()))@ == EventView::DirCreated(Ok(())),
        FetchEvent::DirCreated(Err(text))@ == EventView::DirCreated(Err(text@)),
        (FetchEvent::CacheRead { model_present: flag, etag: Some(text) })@ == (
        EventView::CacheRead { model_present: flag, etag: Some(text@) }),
        (FetchEvent::CacheRead { model_present: flag, etag: None })@ == (EventView::CacheRead {
            model_present: flag,
            etag: None,
        }),
        FetchEvent::Downloaded(outcome)@ == EventView::Downloaded(download::outcome_view(outcome)),
        FetchEvent::Waited@ == EventView::Waited,
        FetchEvent::Measured(Ok(size))@ == EventView::Measured(Ok(size)),
        FetchEvent::Measured(Err(text))@ == EventView::Measured(Err(text@)),
        FetchEvent::Evicted(Ok(()))@ == EventView::Evicted(Ok(())),
        FetchEvent::Evicted(Err(error))@ == EventView::Evicted(Err(error@)),
        FetchEvent::Renamed(Ok(()))@ == EventView::Renamed(Ok(())),
        FetchEvent::Renamed(Err(text))@ == EventView::Renamed(Err(text@)),
        FetchEvent::EtagWritten(Ok(()))@ == EventView::EtagWritten(Ok(())),
        FetchEvent::EtagWritten(Err(text))@ == EventView::EtagWritten(Err(text@)),
        FetchEvent::Touched(Ok(()))@ == EventView::Touched(Ok(())),
        FetchEvent::Touched(Err(error))@ == EventView::Touched(Err(error@)),
{
}

/// What is to be done is seen as it is.
pub proof fn law_actions_are_seen_as_they_are(
    text: String,
    etag: String,
    number: u64,
    error: InferaError,
)
    ensures
        FetchAction::CheckDir@ == ActionView::CheckDir,
        FetchAction::CreateDir@ == ActionView::CreateDir,
        FetchAction::ReadCache@ == ActionView::ReadCache,
        (FetchAction::Download { url: text, etag, timeout_secs: number })@ == (
        ActionView::Download { url: text@, etag: etag@, timeout_secs: number }),
        FetchAction::Wait(number)@ == ActionView::Wait(number),
        FetchAction::Measure@ == ActionView::Measure,
        FetchAction::Evict(number)@ == ActionView::Evict(number),
        FetchAction::Rename@ == ActionView::Rename,
        FetchAction::WriteEtag(text)@ == ActionView::WriteEtag(text@),
        FetchAction::Touch@ == ActionView::Touch,
        FetchAction::Finish(Ok(text))@ == ActionView::Finish(Ok(text@)),
        FetchAction::Finish(Err(error))@ == ActionView::Finish(Err(error@)),
{
}

} // verus!
