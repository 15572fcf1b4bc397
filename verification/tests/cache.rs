//! The cache: order, size, eviction and clearing.

use infera::cache::{
    cache_size_fits, cache_usage, get_cache_size, get_cached_files_by_access_time, CacheEntry,
    CacheListing, CacheMetadata,
};
use infera::cache_key::files_of_digest;
use infera::clear::{clear_cache, ClearAction, ClearEvent};
use infera::config::{
    cache_dir, cache_dir_text, get_cache_size_limit, size_limit_or_default, Config,
    DEFAULT_CACHE_SIZE_LIMIT,
};
use infera::eviction::{evict_cache_if_needed, Eviction, EvictionStep, Shortage};
use infera::file_name::{file_stem, has_onnx_extension};
use infera::{infera_clear_cache, infera_get_cache_info, InferaError, LastError};

fn model(name: &str, accessed: Option<i128>, size: u64) -> CacheEntry {
    CacheEntry {
        name: name.as_bytes().to_vec(),
        is_file: true,
        metadata: Some(CacheMetadata {
            accessed,
            observed: 1000,
            size,
        }),
    }
}

fn config(limit: u64) -> Config {
    Config {
        cache_dir: b"/cache".to_vec(),
        cache_size_limit: limit,
        http_retry_attempts: 3,
        http_retry_delay_ms: 100,
        http_timeout_secs: 30,
    }
}

fn listing() -> CacheListing {
    let mut directory = model("dir.onnx", Some(0), 9);
    directory.is_file = false;
    let mut unknown = model("gone.onnx", Some(0), 9);
    unknown.metadata = None;
    CacheListing::Entries(vec![
        model("b.onnx", Some(30), 10),
        model("a.etag", Some(1), 5),
        model("c.onnx", Some(-20), 20),
        directory,
        model("d.onnx", None, 40),
        model("e.onnx", Some(30), 80),
        unknown,
        model("f.onnx.part", Some(2), 160),
    ])
}

/// The positions of the entries that an eviction removes.
fn evicted(limit: u64, required: u64, listing: &CacheListing) -> Vec<usize> {
    let mut gone = Vec::new();
    match evict_cache_if_needed(&config(limit), required, listing) {
        EvictionStep::Finished(result) => assert_eq!(result, Ok(())),
        EvictionStep::ListModels(shortage) => {
            let mut eviction = Eviction::begin(&shortage, listing).unwrap();
            while let Some(entry) = eviction.next_removal() {
                gone.push(entry);
                eviction.after_removal(Ok(())).unwrap();
            }
        }
    }
    gone
}

#[test]
fn models_come_by_access_time() {
    let files = get_cached_files_by_access_time(&listing()).unwrap();
    let order: Vec<usize> = files.iter().map(|f| f.entry).collect();
    assert_eq!(order, vec![2, 0, 5, 4]);
    assert_eq!(files[0].accessed, -20);
    assert_eq!(files[3].accessed, 1000);
    assert_eq!(files[3].size, 40);
}

#[test]
fn size_and_number_of_models() {
    assert_eq!(get_cache_size(&listing()), Ok(150));
    assert_eq!(cache_usage(&listing()), (150, 4));
    assert_eq!(get_cache_size(&CacheListing::Missing), Ok(0));
    assert_eq!(cache_usage(&CacheListing::Missing), (0, 0));
    assert!(get_cached_files_by_access_time(&CacheListing::Missing)
        .unwrap()
        .is_empty());
}

#[test]
fn directory_that_cannot_be_read() {
    let unreadable = CacheListing::Unreadable("denied".to_string());
    let error = InferaError::IoError("denied".to_string());
    assert_eq!(get_cache_size(&unreadable), Err(error));
    assert!(get_cached_files_by_access_time(&unreadable).is_err());
    assert_eq!(
        evict_cache_if_needed(&config(10), 5, &unreadable),
        EvictionStep::Finished(Err(InferaError::IoError("denied".to_string())))
    );
    let shortage = Shortage {
        current_size: 1,
        target_size: 0,
    };
    assert!(Eviction::begin(&shortage, &unreadable).is_err());
}

#[test]
fn size_that_does_not_fit() {
    let huge = CacheListing::Entries(vec![
        model("a.onnx", Some(1), u64::MAX),
        model("b.onnx", Some(2), 1),
    ]);
    assert!(!cache_size_fits(&huge));
    assert!(cache_size_fits(&listing()));
    assert!(cache_size_fits(&CacheListing::Missing));
}

#[test]
fn nothing_is_evicted_where_there_is_room() {
    assert!(evicted(200, 50, &listing()).is_empty());
    assert!(evicted(u64::MAX, u64::MAX - 150, &listing()).is_empty());
}

#[test]
fn least_recently_used_models_are_evicted() {
    assert_eq!(evicted(199, 50, &listing()), vec![2]);
    assert_eq!(evicted(180, 50, &listing()), vec![2]);
    assert_eq!(evicted(179, 50, &listing()), vec![2, 0]);
    assert_eq!(evicted(90, 50, &listing()), vec![2, 0, 5]);
    assert_eq!(evicted(50, 50, &listing()), vec![2, 0, 5, 4]);
    assert_eq!(evicted(10, 50, &listing()), vec![2, 0, 5, 4]);
    assert_eq!(evicted(10, u64::MAX, &listing()), vec![2, 0, 5, 4]);
}

#[test]
fn shortage_tells_what_must_go() {
    assert_eq!(
        evict_cache_if_needed(&config(120), 50, &listing()),
        EvictionStep::ListModels(Shortage {
            current_size: 150,
            target_size: 70
        })
    );
    assert_eq!(
        evict_cache_if_needed(&config(120), 150, &listing()),
        EvictionStep::ListModels(Shortage {
            current_size: 150,
            target_size: 0
        })
    );
}

#[test]
fn removal_that_fails_ends_the_eviction() {
    let shortage = Shortage {
        current_size: 150,
        target_size: 0,
    };
    let mut eviction = Eviction::begin(&shortage, &listing()).unwrap();
    assert_eq!(eviction.next_removal(), Some(2));
    assert_eq!(
        eviction.after_removal(Err("busy".to_string())),
        Err(InferaError::IoError("busy".to_string()))
    );
    assert_eq!(eviction.next_removal(), Some(2));
}

#[test]
fn models_that_grew_do_not_disturb_the_eviction() {
    let shortage = Shortage {
        current_size: 10,
        target_size: 5,
    };
    let mut eviction = Eviction::begin(&shortage, &listing()).unwrap();
    assert_eq!(eviction.next_removal(), Some(2));
    eviction.after_removal(Ok(())).unwrap();
    assert_eq!(eviction.next_removal(), None);
}

#[test]
fn test_clear_cache_removes_files() {
    // dummy.tmp is the one entry of the directory.
    let mut exists = true;
    assert_eq!(clear_cache(ClearEvent::Opened), ClearAction::NextEntry);
    let entry = ClearEvent::Entry {
        is_file: true,
        is_dir: false,
    };
    assert!(exists);
    if clear_cache(entry) == ClearAction::RemoveFile {
        exists = false;
    }
    assert_eq!(clear_cache(ClearEvent::Removed), ClearAction::NextEntry);
    assert_eq!(
        clear_cache(ClearEvent::Exhausted),
        ClearAction::Finish(Ok(()))
    );
    assert!(!exists);
}

#[test]
fn clearing_directories_and_failures() {
    let entry = |is_file: bool, is_dir: bool| ClearEvent::Entry { is_file, is_dir };
    assert_eq!(clear_cache(entry(false, true)), ClearAction::RemoveTree);
    assert_eq!(clear_cache(entry(true, true)), ClearAction::RemoveFile);
    assert_eq!(clear_cache(entry(false, false)), ClearAction::RemoveFile);
    assert_eq!(clear_cache(ClearEvent::Absent), ClearAction::Finish(Ok(())));
    let failed = |s: &str| ClearAction::Finish(Err(InferaError::IoError(s.to_string())));
    assert_eq!(
        clear_cache(ClearEvent::Unreadable("denied".to_string())),
        failed("denied")
    );
    assert_eq!(
        clear_cache(ClearEvent::EntryUnreadable("stale".to_string())),
        failed("stale")
    );
    assert_eq!(
        clear_cache(ClearEvent::RemoveFailed("busy".to_string())),
        failed("busy")
    );
}

#[test]
fn extensions_and_stems() {
    assert!(has_onnx_extension(b"linear.onnx"));
    assert!(has_onnx_extension(b"a.b.onnx"));
    assert!(has_onnx_extension(b"\xff.onnx"));
    assert!(!has_onnx_extension(b".onnx"));
    assert!(!has_onnx_extension(b"onnx"));
    assert!(!has_onnx_extension(b"a.ONNX"));
    assert!(!has_onnx_extension(b"a.onnx.part"));
    assert!(!has_onnx_extension(b"a.onnx."));
    assert!(!has_onnx_extension(b".."));
    assert!(!has_onnx_extension(b""));
    assert_eq!(file_stem(b"a.b.onnx"), b"a.b");
    assert_eq!(file_stem(b".onnx"), b".onnx");
    assert_eq!(file_stem(b"plain"), b"plain");
    assert_eq!(file_stem(b".."), b"..");
    assert_eq!(file_stem(b"a."), b"a");
}

#[test]
fn settings() {
    let mut settings = config(77);
    assert_eq!(cache_dir(&settings), b"/cache".to_vec());
    assert_eq!(cache_dir_text(&settings), "/cache");
    assert_eq!(get_cache_size_limit(&settings), 77);
    settings.cache_dir = b"/c\xff".to_vec();
    assert_eq!(cache_dir_text(&settings), "/c\u{fffd}");
    assert_eq!(size_limit_or_default(None), 1024 * 1024 * 1024);
    assert_eq!(size_limit_or_default(None), DEFAULT_CACHE_SIZE_LIMIT);
    assert_eq!(size_limit_or_default(Some(5)), 5);
}

/// Whether each entry is a file and whether it is a directory.
fn clear(directory: &mut Vec<(bool, bool)>) -> Result<(), InferaError> {
    let mut event = ClearEvent::Opened;
    loop {
        event = match clear_cache(event) {
            ClearAction::Finish(result) => return result,
            ClearAction::NextEntry => match directory.first() {
                None => ClearEvent::Exhausted,
                Some((is_file, is_dir)) => ClearEvent::Entry {
                    is_file: *is_file,
                    is_dir: *is_dir,
                },
            },
            ClearAction::RemoveFile => {
                assert_ne!(directory.remove(0), (false, true));
                ClearEvent::Removed
            }
            ClearAction::RemoveTree => {
                assert_eq!(directory.remove(0), (false, true));
                ClearEvent::Removed
            }
        };
    }
}

#[test]
fn cleared_cache_is_told_to_be_empty() {
    let mut directory = vec![(true, false), (false, true), (false, false), (true, false)];
    assert_eq!(clear(&mut directory), Ok(()));
    assert!(directory.is_empty());
    let mut last = LastError::new();
    assert_eq!(infera_clear_cache(Ok(()), &mut last), 0);
    let later = CacheListing::Entries(Vec::new());
    let info = infera_get_cache_info(&config(77), &later, &mut last);
    assert!(info.contains("\"total_size_bytes\":0"));
    assert!(info.contains("\"file_count\":0"));
    assert_eq!(last.infera_last_error(), None);
}

#[test]
fn new_model_leaves_the_cache_within_the_limit() {
    let after = |limit: u64, size: u64| {
        let gone = evicted(limit, size, &listing());
        let mut entries = Vec::new();
        if let CacheListing::Entries(before) = listing() {
            for (i, entry) in before.into_iter().enumerate() {
                if !gone.contains(&i) {
                    entries.push(entry);
                }
            }
        }
        let files = files_of_digest(&[7; 32]);
        entries.push(model(&files.model, Some(2000), size));
        entries.push(model(&files.etag, Some(2000), 9));
        cache_usage(&CacheListing::Entries(entries))
    };
    assert_eq!(after(200, 50), (200, 5));
    assert_eq!(after(199, 50), (180, 4));
    assert_eq!(after(90, 50), (90, 2));
    assert_eq!(after(50, 50), (50, 1));
    assert_eq!(after(10, 50), (50, 1));
}
