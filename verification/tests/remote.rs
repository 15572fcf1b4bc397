//! Runs of the work on a remote model, against a file system and a server that
//! exist in memory.

use infera::cache_key::{cache_files, files_of_digest};
use infera::config::Config;
use infera::download::{
    download_file_with_etag, download_saved, DownloadStep, Reply, SavedBody,
};
use infera::remote::{
    handle_remote_model, retry_delay, touch_cache_file, Fetch, FetchAction, FetchEvent,
    TouchOutcome,
};
use infera::temp_file::TempFileGuard;
use infera::InferaError;

/// How the server answers.
enum Server {
    /// With the content, and with entity tags or without.
    Content { content: String, tagged: bool },
    /// With an error status, which is told as a text.
    Error { status: u16, error: String },
    /// With less than it announced.
    BreaksOff(String),
}

/// A response that is no error.
fn response(status: u16) -> Reply {
    Reply::Response {
        status,
        error: String::new(),
    }
}

/// The cache directory and the server.
struct World {
    dir_exists: bool,
    model: Option<String>,
    etag_file: Option<String>,
    temp: Option<String>,
    server: Server,
    clock: u64,
    model_written_at: u64,
    model_touched_at: u64,
    requests: Vec<String>,
    waits: Vec<u64>,
    renames: usize,
}

impl World {
    fn new(server: Server) -> World {
        World {
            dir_exists: false,
            model: None,
            etag_file: None,
            temp: None,
            server,
            clock: 0,
            model_written_at: 0,
            model_touched_at: 0,
            requests: Vec::new(),
            waits: Vec::new(),
            renames: 0,
        }
    }

    fn download(&mut self, etag: &str) -> Result<Option<(bool, String)>, InferaError> {
        self.requests.push(etag.to_string());
        let (reply, body, header) = match &self.server {
            Server::Error { status, error } => (
                Reply::Response {
                    status: *status,
                    error: error.clone(),
                },
                Ok("error page".to_string()),
                None,
            ),
            Server::BreaksOff(reason) => {
                (response(200), Err(reason.clone()), None)
            }
            Server::Content { content, tagged } => {
                let current = format!("\"{}\"", content);
                let status = if *tagged && etag == current { 304 } else { 200 };
                let header = if *tagged { Some(current) } else { None };
                (response(status), Ok(content.clone()), header)
            }
        };
        match download_file_with_etag(etag, reply) {
            DownloadStep::Finished(result) => result,
            DownloadStep::SaveBody => {
                self.temp = Some("partial".to_string());
                match body {
                    Err(reason) => download_saved(SavedBody::Failed(reason)),
                    Ok(content) => {
                        self.temp = Some(content);
                        download_saved(SavedBody::Saved { etag: header })
                    }
                }
            }
        }
    }

    fn perform(&mut self, action: &FetchAction) -> FetchEvent {
        self.clock += 1;
        match action {
            FetchAction::CheckDir => FetchEvent::DirChecked(self.dir_exists),
            FetchAction::CreateDir => {
                self.dir_exists = true;
                FetchEvent::DirCreated(Ok(()))
            }
            FetchAction::ReadCache => FetchEvent::CacheRead {
                model_present: self.model.is_some(),
                etag: self.etag_file.clone(),
            },
            FetchAction::Download { etag, .. } => {
                let etag = etag.clone();
                FetchEvent::Downloaded(self.download(&etag))
            }
            FetchAction::Wait(ms) => {
                self.waits.push(*ms);
                FetchEvent::Waited
            }
            FetchAction::Measure => {
                FetchEvent::Measured(Ok(self.temp.as_ref().unwrap().len() as u64))
            }
            FetchAction::Evict(_) => FetchEvent::Evicted(Ok(())),
            FetchAction::Rename => {
                self.model = self.temp.take();
                self.model_written_at = self.clock;
                self.renames += 1;
                FetchEvent::Renamed(Ok(()))
            }
            FetchAction::WriteEtag(etag) => {
                self.etag_file = Some(etag.clone());
                FetchEvent::EtagWritten(Ok(()))
            }
            FetchAction::Touch => {
                self.model_touched_at = self.clock;
                FetchEvent::Touched(touch_cache_file(TouchOutcome::Touched))
            }
            FetchAction::Finish(_) => panic!("nothing is to be done"),
        }
    }

    fn fetch(&mut self, url: &str) -> Result<String, InferaError> {
        let mut fetch: Fetch = handle_remote_model(&config(), url);
        loop {
            if let FetchAction::Finish(_) = fetch.next_action() {
                break;
            }
            let event = self.perform(fetch.next_action());
            fetch = fetch.after(event);
        }
        if let Some(name) = fetch.file_to_remove() {
            assert_eq!(name, cache_files(url).temp);
            self.temp = None;
        }
        fetch.into_result()
    }
}

fn config() -> Config {
    Config {
        cache_dir: b"/tmp/infera_cache".to_vec(),
        cache_size_limit: 1000,
        http_retry_attempts: 3,
        http_retry_delay_ms: 100,
        http_timeout_secs: 30,
    }
}

#[test]
fn test_handle_remote_model_cleanup_on_incomplete_download() {
    let url = "http://127.0.0.1:4000/incomplete_model.onnx";
    let mut world = World::new(Server::BreaksOff("incomplete data".to_string()));
    let result = world.fetch(url);
    assert!(result.is_err());
    assert!(world.model.is_none(), "Final cache file should not exist");
    assert!(world.temp.is_none(), "Partial file should be cleaned up");
    assert_eq!(result, Err(InferaError::IoError("incomplete data".to_string())));
    assert_eq!(world.renames, 0);
}

#[test]
fn test_handle_remote_model_download_error() {
    let url = "http://127.0.0.1:4000/server_error_model.onnx";
    let mut world = World::new(Server::Error {
        status: 500,
        error: "500".to_string(),
    });
    let result = world.fetch(url);
    assert!(
        result.is_err(),
        "handle_remote_model should return an error on 500 status"
    );
    assert!(world.model.is_none(), "Final cache file should not exist");
    assert!(world.temp.is_none(), "Partial file should be cleaned up");
    assert_eq!(result, Err(InferaError::HttpRequestError("500".to_string())));
    assert_eq!(world.requests.len(), 3);
    assert_eq!(world.waits, vec![100, 200]);
}

#[test]
fn test_handle_remote_model_cleanup_on_connection_drop() {
    let url = "http://127.0.0.1:4000/dropped_connection.onnx";
    let mut world = World::new(Server::BreaksOff("connection closed".to_string()));
    let result = world.fetch(url);
    assert!(result.is_err(), "The download should fail on a connection drop");
    assert!(world.model.is_none(), "Final cache file should not exist");
    assert!(
        world.temp.is_none(),
        "Partial file should be cleaned up after a connection drop"
    );
}

#[test]
fn test_remote_model_download_and_cache_with_etag_enabled() {
    let url = "http://127.0.0.1:4000/model.onnx";
    let mut world = World::new(Server::Content {
        content: "initial content".to_string(),
        tagged: true,
    });
    let path1 = world.fetch(url).expect("handle_remote_model failed");
    let content1 = world.model.clone().expect("read cached file");
    let time1 = world.model_written_at;

    let path2 = world.fetch(url).expect("handle_remote_model failed");
    let content2 = world.model.clone().expect("read cached file");
    let time2 = world.model_written_at;
    assert_eq!(path1, path2);
    assert_eq!(content1, content2);
    assert_eq!(time1, time2);
    assert!(world.model_touched_at > time1);
    assert_eq!(world.requests, vec!["", "\"initial content\""]);

    world.server = Server::Content {
        content: "updated content".to_string(),
        tagged: true,
    };
    let path3 = world.fetch(url).expect("handle_remote_model failed");
    let content3 = world.model.clone().expect("read cached file");
    let time3 = world.model_written_at;
    assert_eq!(path1, path3);
    assert_ne!(content1, content3);
    assert_ne!(time1, time3);
    assert_eq!(world.etag_file.as_deref(), Some("\"updated content\""));
}

#[test]
fn test_remote_model_download_and_cache_with_etag_disabled() {
    let url = "http://127.0.0.1:4000/model.onnx";
    let mut world = World::new(Server::Content {
        content: "initial content".to_string(),
        tagged: false,
    });
    let path1 = world.fetch(url).expect("handle_remote_model failed");
    let content1 = world.model.clone().expect("read cached file");
    let time1 = world.model_written_at;

    let path2 = world.fetch(url).expect("handle_remote_model failed");
    let content2 = world.model.clone().expect("read cached file");
    let time2 = world.model_written_at;
    assert_eq!(path1, path2);
    assert_eq!(content1, content2);
    assert_ne!(time1, time2);

    world.server = Server::Content {
        content: "updated content".to_string(),
        tagged: false,
    };
    let path3 = world.fetch(url).expect("handle_remote_model failed");
    let content3 = world.model.clone().expect("read cached file");
    let time3 = world.model_written_at;
    assert_eq!(path1, path3);
    assert_ne!(content1, content3);
    assert_ne!(time1, time3);
    assert_eq!(world.etag_file.as_deref(), Some(""));
}

#[test]
fn evicted_model_is_downloaded_again() {
    let url = "http://127.0.0.1:4000/model.onnx";
    let mut world = World::new(Server::Content {
        content: "content".to_string(),
        tagged: true,
    });
    world.fetch(url).expect("first fetch");
    world.model = None;
    world.fetch(url).expect("second fetch");
    assert_eq!(world.model.as_deref(), Some("content"));
    assert_eq!(world.requests, vec!["", ""]);
}

#[test]
fn etag_is_trimmed() {
    let mut world = World::new(Server::Content {
        content: "c".to_string(),
        tagged: true,
    });
    world.dir_exists = true;
    world.model = Some("c".to_string());
    world.etag_file = Some(" \t\"c\"\u{a0}\r\n".to_string());
    world.fetch("http://h/m").expect("fetch");
    assert_eq!(world.requests, vec!["\"c\""]);
    assert_eq!(world.renames, 0);
}

#[test]
fn no_attempts_is_an_unknown_error() {
    let mut settings = config();
    settings.http_retry_attempts = 0;
    let fetch = handle_remote_model(&settings, "http://h/m");
    let fetch = fetch.after(FetchEvent::DirChecked(true));
    assert_eq!(fetch.next_action(), &FetchAction::ReadCache);
    assert_eq!(fetch.file_to_remove(), None);
    let fetch = fetch.after(FetchEvent::CacheRead {
        model_present: false,
        etag: None,
    });
    assert_eq!(
        fetch.into_result(),
        Err(InferaError::HttpRequestError(
            "Unknown download error".to_string()
        ))
    );
}

#[test]
fn cache_directory_that_cannot_be_created() {
    let fetch = handle_remote_model(&config(), "http://h/m");
    let fetch = fetch.after(FetchEvent::DirChecked(false));
    assert_eq!(fetch.next_action(), &FetchAction::CreateDir);
    let fetch = fetch.after(FetchEvent::DirCreated(Err("denied".to_string())));
    assert_eq!(fetch.file_to_remove(), None);
    assert_eq!(
        fetch.into_result(),
        Err(InferaError::CacheDirError("denied".to_string()))
    );
}

fn downloaded() -> Fetch {
    handle_remote_model(&config(), "http://h/m")
        .after(FetchEvent::DirChecked(true))
        .after(FetchEvent::CacheRead {
            model_present: false,
            etag: None,
        })
        .after(FetchEvent::Downloaded(Ok(Some((false, "t".to_string())))))
}

#[test]
fn failures_after_a_download_end_the_work() {
    let io = |s: &str| Err(InferaError::IoError(s.to_string()));

    let fetch = downloaded().after(FetchEvent::Measured(Err("stat".to_string())));
    assert!(fetch.file_to_remove().is_some());
    assert_eq!(fetch.into_result(), io("stat"));

    let measured = || downloaded().after(FetchEvent::Measured(Ok(7)));
    assert_eq!(measured().next_action(), &FetchAction::Evict(7));
    let error = InferaError::IoError("evict".to_string());
    let fetch = measured().after(FetchEvent::Evicted(Err(error)));
    assert!(fetch.file_to_remove().is_some());
    assert_eq!(fetch.into_result(), io("evict"));

    let evicted = || measured().after(FetchEvent::Evicted(Ok(())));
    let fetch = evicted().after(FetchEvent::Renamed(Err("rename".to_string())));
    assert!(fetch.file_to_remove().is_some());
    assert_eq!(fetch.into_result(), io("rename"));

    let renamed = evicted().after(FetchEvent::Renamed(Ok(())));
    assert_eq!(renamed.next_action(), &FetchAction::WriteEtag("t".to_string()));
    let fetch = renamed.after(FetchEvent::EtagWritten(Err("write".to_string())));
    assert!(fetch.file_to_remove().is_some());
    assert_eq!(fetch.into_result(), io("write"));
}

#[test]
fn download_without_a_result_is_tried_again_at_once() {
    let fetch = handle_remote_model(&config(), "http://h/m")
        .after(FetchEvent::DirChecked(true))
        .after(FetchEvent::CacheRead {
            model_present: true,
            etag: Some("t".to_string()),
        })
        .after(FetchEvent::Downloaded(Ok(None)));
    assert_eq!(
        fetch.next_action(),
        &FetchAction::Download {
            url: "http://h/m".to_string(),
            etag: "t".to_string(),
            timeout_secs: 30
        }
    );
}

#[test]
fn touch_that_fails_ends_the_work() {
    let failed = touch_cache_file(TouchOutcome::Failed("read-only".to_string()));
    assert_eq!(failed, Err(InferaError::IoError("read-only".to_string())));
    assert_eq!(touch_cache_file(TouchOutcome::Absent), Ok(()));
    let fetch = handle_remote_model(&config(), "http://h/m")
        .after(FetchEvent::DirChecked(true))
        .after(FetchEvent::CacheRead {
            model_present: true,
            etag: Some("t".to_string()),
        })
        .after(FetchEvent::Downloaded(Ok(Some((true, "t".to_string())))))
        .after(FetchEvent::Touched(failed));
    assert!(fetch.file_to_remove().is_some());
    assert!(fetch.into_result().is_err());
}

#[test]
fn delays_double() {
    assert_eq!(retry_delay(1000, 1), 1000);
    assert_eq!(retry_delay(1000, 2), 2000);
    assert_eq!(retry_delay(1000, 3), 4000);
    assert_eq!(retry_delay(1, 64), 1 << 63);
    assert_eq!(retry_delay(1, 65), u64::MAX);
    assert_eq!(retry_delay(3, u32::MAX), u64::MAX);
    assert_eq!(retry_delay(0, u32::MAX), 0);
}

#[test]
fn names_follow_from_the_digest_of_the_url() {
    let files = cache_files("abc");
    let key = "ba7816bf8f01cfea414140de5dae2223b00361a396177a9cb410ff61f20015ad";
    assert_eq!(files.model, format!("{}.onnx", key));
    assert_eq!(files.etag, format!("{}.etag", key));
    assert_eq!(files.temp, format!("{}.onnx.part", key));
    assert_ne!(cache_files("abd").model, files.model);
    assert_eq!(files_of_digest(&[0x01, 0xaf]).model, "01af.onnx");
}

#[test]
fn replies_to_a_request() {
    assert_eq!(
        download_file_with_etag("t", response(304)),
        DownloadStep::Finished(Ok(Some((true, "t".to_string()))))
    );
    assert_eq!(download_file_with_etag("", response(304)), DownloadStep::SaveBody);
    assert_eq!(download_file_with_etag("t", response(200)), DownloadStep::SaveBody);
    assert_eq!(download_file_with_etag("t", response(399)), DownloadStep::SaveBody);
    assert_eq!(download_file_with_etag("t", response(600)), DownloadStep::SaveBody);
    assert_eq!(
        download_file_with_etag("t", Reply::Failed("404".to_string())),
        DownloadStep::Finished(Err(InferaError::HttpRequestError("404".to_string())))
    );
    assert_eq!(
        download_saved(SavedBody::Saved { etag: None }),
        Ok(Some((false, String::new())))
    );
}

#[test]
fn error_status_fails_the_download() {
    for status in [400, 404, 499, 500, 503, 599] {
        let reply = Reply::Response {
            status,
            error: format!("status {}", status),
        };
        assert_eq!(
            download_file_with_etag("t", reply),
            DownloadStep::Finished(Err(InferaError::HttpRequestError(format!(
                "status {}",
                status
            ))))
        );
    }
}

#[test]
fn partial_file_goes_where_the_cached_model_is_current() {
    let broken = handle_remote_model(&config(), "http://h/m")
        .after(FetchEvent::DirChecked(true))
        .after(FetchEvent::CacheRead {
            model_present: true,
            etag: Some("t".to_string()),
        })
        .after(FetchEvent::Downloaded(Err(InferaError::IoError(
            "broken off".to_string(),
        ))));
    let done = broken
        .after(FetchEvent::Waited)
        .after(FetchEvent::Downloaded(Ok(Some((true, "t".to_string())))))
        .after(FetchEvent::Touched(Ok(())));
    let files = cache_files("http://h/m");
    assert_eq!(done.file_to_remove(), Some(files.temp.as_str()));
    assert_eq!(done.into_result(), Ok(files.model));
}

#[test]
fn moved_file_is_not_removed() {
    let done = downloaded()
        .after(FetchEvent::Measured(Ok(5)))
        .after(FetchEvent::Evicted(Ok(())))
        .after(FetchEvent::Renamed(Ok(())))
        .after(FetchEvent::EtagWritten(Ok(())));
    assert_eq!(done.file_to_remove(), None);
}

#[test]
fn guard_gives_up_a_committed_file() {
    let mut guard = TempFileGuard::new("a.part");
    assert_eq!(guard.file_to_remove(), Some("a.part"));
    guard.commit();
    assert_eq!(guard.file_to_remove(), None);
}

#[test]
fn names_begin_with_64_digits() {
    let files = cache_files("http://localhost/model.onnx");
    for (name, suffix) in [
        (&files.model, ".onnx"),
        (&files.etag, ".etag"),
        (&files.temp, ".onnx.part"),
    ] {
        assert_eq!(&name[64..], suffix);
        assert!(name[..64]
            .chars()
            .all(|c| matches!(c, '0'..='9' | 'a'..='f')));
    }
}

#[test]
fn same_url_gives_the_same_model() {
    let fetched = |url: &str| {
        let mut world = World::new(Server::Content {
            content: "model".to_string(),
            tagged: true,
        });
        world.fetch(url).unwrap()
    };
    let first = fetched("http://localhost/a.onnx");
    assert_eq!(fetched("http://localhost/a.onnx"), first);
    assert_ne!(fetched("http://localhost/b.onnx"), first);
    assert_eq!(first.len(), 69);
}
