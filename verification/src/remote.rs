//! Getting a remote model: from the cache where it is current, and else by a
//! download that is tried again where it fails.

use crate::cache_key::{self, CacheFiles};
use crate::config::Config;
use crate::download;
use crate::error::{ErrorView, InferaError};
use crate::temp_file::TempFileGuard;
use crate::text;
use vstd::prelude::*;

verus! {

/// What happened while a remote model is got.
#[derive(Debug, PartialEq, Eq)]
pub enum FetchEvent {
    /// Whether the cache directory exists.
    DirChecked(bool),
    /// What came of creating the cache directory.
    DirCreated(Result<(), String>),
    /// What the cache holds: whether the model is there, and what the file with
    /// its entity tag says, where it could be read.
    CacheRead { model_present: bool, etag: Option<String> },
    /// What came of the download.
    Downloaded(Result<Option<(bool, String)>, InferaError>),
    /// The time to wait is over.
    Waited,
    /// The size of the downloaded file.
    Measured(Result<u64, String>),
    /// What came of making room in the cache.
    Evicted(Result<(), InferaError>),
    /// What came of moving the downloaded file to its place in the cache.
    Renamed(Result<(), String>),
    /// What came of writing the file with the entity tag.
    EtagWritten(Result<(), String>),
    /// What came of updating the access time of the model.
    Touched(Result<(), InferaError>),
}

/// What is to be done next.
#[derive(Debug, PartialEq, Eq)]
pub enum FetchAction {
    /// See whether the cache directory exists.
    CheckDir,
    /// Create the cache directory.
    CreateDir,
    /// See what the cache holds for the URL.
    ReadCache,
    /// Download the URL to the temporary file, naming the known entity tag, within
    /// a number of seconds.
    Download { url: String, etag: String, timeout_secs: u64 },
    /// Wait, for a number of milliseconds.
    Wait(u64),
    /// Get the size of the temporary file.
    Measure,
    /// Make room in the cache for a number of bytes.
    Evict(u64),
    /// Move the temporary file to the model's place.
    Rename,
    /// Write the entity tag.
    WriteEtag(String),
    /// Update the access time of the model.
    Touch,
    /// Stop with the result: the name of the model in the cache directory.
    Finish(Result<String, InferaError>),
}

/// A [`FetchEvent`] with texts as sequences of characters.
pub enum EventView {
    DirChecked(bool),
    DirCreated(Result<(), Seq<char>>),
    CacheRead { model_present: bool, etag: Option<Seq<char>> },
    Downloaded(Result<Option<(bool, Seq<char>)>, ErrorView>),
    Waited,
    Measured(Result<u64, Seq<char>>),
    Evicted(Result<(), ErrorView>),
    Renamed(Result<(), Seq<char>>),
    EtagWritten(Result<(), Seq<char>>),
    Touched(Result<(), ErrorView>),
}

/// A [`FetchAction`] with texts as sequences of characters.
pub enum ActionView {
    CheckDir,
    CreateDir,
    ReadCache,
    Download { url: Seq<char>, etag: Seq<char>, timeout_secs: u64 },
    Wait(u64),
    Measure,
    Evict(u64),
    Rename,
    WriteEtag(Seq<char>),
    Touch,
    Finish(Result<Seq<char>, ErrorView>),
}

/// A result whose error is a text.
pub open spec fn with_reason<T>(r: Result<T, String>) -> Result<T, Seq<char>> {
    match r {
        Ok(value) => Ok(value),
        Err(reason) => Err(reason@),
    }
}

/// A result whose error is one of the library.
pub open spec fn with_error<T>(r: Result<T, InferaError>) -> Result<T, ErrorView> {
    match r {
        Ok(value) => Ok(value),
        Err(error) => Err(error@),
    }
}

/// An optional text.
pub open spec fn optional_text(t: Option<String>) -> Option<Seq<char>> {
    match t {
        Some(t) => Some(t@),
        None => None,
    }
}

impl View for FetchEvent {
    type V = EventView;

    open spec fn view(&self) -> EventView {
        match *self {
            FetchEvent::DirChecked(exists) => EventView::DirChecked(exists),
            FetchEvent::DirCreated(r) => EventView::DirCreated(with_reason(r)),
            FetchEvent::CacheRead { model_present, etag } => EventView::CacheRead {
                model_present,
                etag: optional_text(etag),
            },
            FetchEvent::Downloaded(r) => EventView::Downloaded(download::outcome_view(r)),
            FetchEvent::Waited => EventView::Waited,
            FetchEvent::Measured(r) => EventView::Measured(with_reason(r)),
            FetchEvent::Evicted(r) => EventView::Evicted(with_error(r)),
            FetchEvent::Renamed(r) => EventView::Renamed(with_reason(r)),
            FetchEvent::EtagWritten(r) => EventView::EtagWritten(with_reason(r)),
            FetchEvent::Touched(r) => EventView::Touched(with_error(r)),
        }
    }
}

impl View for FetchAction {
    type V = ActionView;

    open spec fn view(&self) -> ActionView {
        match *self {
            FetchAction::CheckDir => ActionView::CheckDir,
            FetchAction::CreateDir => ActionView::CreateDir,
            FetchAction::ReadCache => ActionView::ReadCache,
            FetchAction::Download { url, etag, timeout_secs } => ActionView::Download {
                url: url@,
                etag: etag@,
                timeout_secs,
            },
            FetchAction::Wait(ms) => ActionView::Wait(ms),
            FetchAction::Measure => ActionView::Measure,
            FetchAction::Evict(size) => ActionView::Evict(size),
            FetchAction::Rename => ActionView::Rename,
            FetchAction::WriteEtag(etag) => ActionView::WriteEtag(etag@),
            FetchAction::Touch => ActionView::Touch,
            FetchAction::Finish(Ok(name)) => ActionView::Finish(Ok(name@)),
            FetchAction::Finish(Err(error)) => ActionView::Finish(Err(error@)),
        }
    }
}

/// The event can come of the action.
pub open spec fn can_follow(action: ActionView, event: EventView) -> bool {
    match action {
        ActionView::CheckDir => event is DirChecked,
        ActionView::CreateDir => event is DirCreated,
        ActionView::ReadCache => event is CacheRead,
        ActionView::Download { url, etag, timeout_secs } => event is Downloaded,
        ActionView::Wait(ms) => event is Waited,
        ActionView::Measure => event is Measured,
        ActionView::Evict(size) => event is Evicted,
        ActionView::Rename => event is Renamed,
        ActionView::WriteEtag(etag) => event is EtagWritten,
        ActionView::Touch => event is Touched,
        ActionView::Finish(result) => false,
    }
}

/// How long to wait after a failed attempt, in milliseconds: the configured time
/// after the first, and twice as long after each one more, as far as a 64-bit
/// number goes.
pub open spec fn backoff(retry_delay_ms: u64, attempt: int) -> u64 {
    if retry_delay_ms * vstd::arithmetic::power2::pow2((attempt - 1) as nat) <= u64::MAX {
        (retry_delay_ms * vstd::arithmetic::power2::pow2((attempt - 1) as nat)) as u64
    } else {
        u64::MAX
    }
}

/// The entity tag to name in a request. One that belongs to a model that is not
/// in the cache is of no use, for then the model has to come whole.
pub open spec fn known_etag(model_present: bool, etag: Option<Seq<char>>) -> Seq<char> {
    match etag {
        Some(etag) if model_present => text::trimmed(etag),
        _ => Seq::empty(),
    }
}

/// The error for a download that was never attempted.
pub open spec fn unknown_error() -> ErrorView {
    ErrorView::HttpRequestError("Unknown download error"@)
}

/// Where the work on a remote model stands.
pub struct FetchView {
    /// The URL of the model.
    pub url: Seq<char>,
    /// The name of the model in the cache directory.
    pub model: Seq<char>,
    /// The name of the file with its entity tag.
    pub etag_file: Seq<char>,
    /// The name of the temporary file.
    pub temp: Seq<char>,
    /// How many times the download is attempted.
    pub max_attempts: u32,
    /// How long to wait after the first failed attempt, in milliseconds.
    pub retry_delay_ms: u64,
    /// How long a request may take, in seconds.
    pub timeout_secs: u64,
    /// The entity tag to name in requests.
    pub etag: Seq<char>,
    /// How many downloads have begun.
    pub attempt: int,
    /// The error of the last download that failed.
    pub last_error: Option<ErrorView>,
    /// The entity tag of the downloaded file.
    pub new_etag: Seq<char>,
    /// Whether the guard of the temporary file has been committed, once it is up.
    pub committed: Option<bool>,
    /// What is to be done next.
    pub next: ActionView,
}

impl FetchView {
    /// The work on a URL, before anything was done.
    pub open spec fn start(config: Config, url: Seq<char>) -> FetchView {
        FetchView {
            url,
            model: cache_key::model_name(cache_key::url_digest(url)),
            etag_file: cache_key::etag_name(cache_key::url_digest(url)),
            temp: cache_key::temp_name(cache_key::url_digest(url)),
            max_attempts: config.http_retry_attempts,
            retry_delay_ms: config.http_retry_delay_ms,
            timeout_secs: config.http_timeout_secs,
            etag: Seq::empty(),
            attempt: 0,
            last_error: None,
            new_etag: Seq::empty(),
            committed: None,
            next: ActionView::CheckDir,
        }
    }

    /// What is to be done next is `next`.
    pub open spec fn then_do(self, next: ActionView) -> FetchView {
        FetchView { next, ..self }
    }

    /// There is nothing more to do: the work failed.
    pub open spec fn fail(self, error: ErrorView) -> FetchView {
        self.then_do(ActionView::Finish(Err(error)))
    }

    /// There is nothing more to do: the download has been moved to the model's place.
    pub open spec fn succeed(self) -> FetchView {
        FetchView {
            committed: Some(true),
            next: ActionView::Finish(Ok(self.model)),
            ..self
        }
    }

    /// The next download begins, if there is one left.
    pub open spec fn try_next(self) -> FetchView {
        if self.attempt < self.max_attempts {
            FetchView {
                attempt: self.attempt + 1,
                next: ActionView::Download {
                    url: self.url,
                    etag: self.etag,
                    timeout_secs: self.timeout_secs,
                },
                ..self
            }
        } else {
            let error = match self.last_error {
                Some(error) => error,
                None => unknown_error(),
            };
            FetchView { last_error: None, ..self }.fail(error)
        }
    }

    /// A download failed: wait and try again, if there is an attempt left.
    pub open spec fn download_failed(self, error: ErrorView) -> FetchView {
        let failed = FetchView { last_error: Some(error), ..self };
        if self.attempt < self.max_attempts {
            failed.then_do(ActionView::Wait(backoff(self.retry_delay_ms, self.attempt)))
        } else {
            failed.try_next()
        }
    }

    /// Where the work stands after the event.
    pub open spec fn after(self, event: EventView) -> FetchView {
        match event {
            EventView::DirChecked(true) => self.then_do(ActionView::ReadCache),
            EventView::DirChecked(false) => self.then_do(ActionView::CreateDir),
            EventView::DirCreated(Ok(_)) => self.then_do(ActionView::ReadCache),
            EventView::DirCreated(Err(reason)) => self.fail(ErrorView::CacheDirError(reason)),
            EventView::CacheRead { model_present, etag } => FetchView {
                etag: known_etag(model_present, etag),
                committed: Some(false),
                ..self
            }.try_next(),
            EventView::Downloaded(Ok(Some((true, _)))) => self.then_do(ActionView::Touch),
            EventView::Downloaded(Ok(Some((false, etag)))) => FetchView {
                new_etag: etag,
                next: ActionView::Measure,
                ..self
            },
            EventView::Downloaded(Ok(None)) => self.try_next(),
            EventView::Downloaded(Err(error)) => self.download_failed(error),
            EventView::Waited => self.try_next(),
            EventView::Measured(Ok(size)) => self.then_do(ActionView::Evict(size)),
            EventView::Evicted(Ok(_)) => self.then_do(ActionView::Rename),
            EventView::Renamed(Ok(_)) => self.then_do(ActionView::WriteEtag(self.new_etag)),
            EventView::EtagWritten(Ok(_)) => self.succeed(),
            EventView::Touched(Ok(_)) => self.then_do(ActionView::Finish(Ok(self.model))),
            EventView::Measured(Err(reason)) => self.fail(ErrorView::IoError(reason)),
            EventView::Renamed(Err(reason)) => self.fail(ErrorView::IoError(reason)),
            EventView::EtagWritten(Err(reason)) => self.fail(ErrorView::IoError(reason)),
            EventView::Evicted(Err(error)) => self.fail(error),
            EventView::Touched(Err(error)) => self.fail(error),
        }
    }
}

/// How long to wait after a failed attempt, in milliseconds.
pub fn retry_delay(retry_delay_ms: u64, attempt: u32) -> (r: u64)
    requires
        attempt > 0,
    ensures
        r == backoff(retry_delay_ms, attempt as int),
{
    let mut delay: u64 = retry_delay_ms;
    let mut i: u32 = 1;
    proof {
        vstd::arithmetic::power2::lemma2_to64();
        assert(retry_delay_ms * 1 == retry_delay_ms);
        assert(retry_delay_ms == 0 ==> backoff(retry_delay_ms, attempt as int) == 0);
    }
    if delay == 0 {
        return 0;
    }
    while i < attempt && delay <= u64::MAX / 2
        invariant
            1 <= i <= attempt,
            delay > 0,
            delay == retry_delay_ms * vstd::arithmetic::power2::pow2((i - 1) as nat),
        decreases attempt - i,
    {
        proof {
            vstd::arithmetic::power2::lemma_pow2_unfold(i as nat);
            let p = vstd::arithmetic::power2::pow2((i - 1) as nat) as int;
            assert(retry_delay_ms * (2 * p) == 2 * (retry_delay_ms * p)) by (nonlinear_arith);
        }
        delay = delay * 2;
        i = i + 1;
    }
    if i < attempt {
        proof {
            lemma_backoff_saturates(retry_delay_ms, i as int, attempt as int);
        }
        u64::MAX
    } else {
        delay
    }
}

/// Once the time to wait is over half of what a number can say, twice as much is
/// over all of it.
proof fn lemma_backoff_saturates(retry_delay_ms: u64, i: int, attempt: int)
    requires
        1 <= i < attempt,
        retry_delay_ms * vstd::arithmetic::power2::pow2((i - 1) as nat) > u64::MAX / 2,
    ensures
        retry_delay_ms * vstd::arithmetic::power2::pow2((attempt - 1) as nat) > u64::MAX,
    decreases attempt,
{
    vstd::arithmetic::power2::lemma_pow2_unfold((attempt - 1) as nat);
    let p = vstd::arithmetic::power2::pow2((attempt - 2) as nat) as int;
    assert(retry_delay_ms * (2 * p) == 2 * (retry_delay_ms * p)) by (nonlinear_arith);
    if i < attempt - 1 {
        lemma_backoff_saturates(retry_delay_ms, i, attempt - 1);
    }
}

/// What came of updating the access time of a model in the cache.
#[derive(Debug, PartialEq, Eq)]
pub enum TouchOutcome {
    /// There is no such file, and nothing was done.
    Absent,
    /// The access time was set.
    Touched,
    /// The access time could not be set, for the reason given.
    Failed(String),
}

/// The result of updating the access time of a model in the cache.
pub fn touch_cache_file(outcome: TouchOutcome) -> (r: Result<(), InferaError>)
    ensures
        with_error(r) == match outcome {
            TouchOutcome::Failed(reason) => Err(ErrorView::IoError(reason@)),
            _ => Ok(()),
        },
{
    match outcome {
        TouchOutcome::Failed(reason) => Err(InferaError::IoError(reason)),
        _ => Ok(()),
    }
}

/// The work on a remote model.
#[derive(Debug)]
pub struct Fetch {
    url: String,
    files: CacheFiles,
    max_attempts: u32,
    retry_delay_ms: u64,
    timeout_secs: u64,
    etag: String,
    attempt: u32,
    last_error: Option<InferaError>,
    new_etag: String,
    guard: Option<TempFileGuard>,
    next: FetchAction,
}

impl View for Fetch {
    type V = FetchView;

    closed spec fn view(&self) -> FetchView {
        FetchView {
            url: self.url@,
            model: self.files.model@,
            etag_file: self.files.etag@,
            temp: self.files.temp@,
            max_attempts: self.max_attempts,
            retry_delay_ms: self.retry_delay_ms,
            timeout_secs: self.timeout_secs,
            etag: self.etag@,
            attempt: self.attempt as int,
            last_error: match self.last_error {
                Some(error) => Some(error@),
                None => None,
            },
            new_etag: self.new_etag@,
            committed: match self.guard {
                Some(guard) => Some(guard.committed()),
                None => None,
            },
            next: self.next@,
        }
    }
}

/// Begins the work on the model at a URL.
pub fn handle_remote_model(config: &Config, url: &str) -> (r: Fetch)
    ensures
        r.wf(),
        r@ == FetchView::start(*config, url@),
        cache_key::url_digest(url@).len() == 32,
        cache_key::is_key_with(r@.model, ".onnx"@),
        cache_key::is_key_with(r@.etag_file, ".etag"@),
        cache_key::is_key_with(r@.temp, ".onnx.part"@),
{
    Fetch {
        url: url.to_owned(),
        files: cache_key::cache_files(url),
        max_attempts: config.http_retry_attempts,
        retry_delay_ms: config.http_retry_delay_ms,
        timeout_secs: config.http_timeout_secs,
        etag: String::new(),
        attempt: 0,
        last_error: None,
        new_etag: String::new(),
        guard: None,
        next: FetchAction::CheckDir,
    }
}

impl Fetch {
    /// The guard is one of the temporary file, and what is to be done fits what
    /// has been done.
    pub closed spec fn wf(&self) -> bool {
        self@.is_reachable() && self.guards_temp()
    }

    /// The names of the files of the URL.
    pub fn files(&self) -> (r: &CacheFiles)
        ensures
            r.model@ == self@.model,
            r.etag@ == self@.etag_file,
            r.temp@ == self@.temp,
    {
        &self.files
    }

    /// What is to be done next.
    pub fn next_action(&self) -> (r: &FetchAction)
        ensures
            r@ == self@.next,
    {
        &self.next
    }

    /// The temporary file, where it is to be removed if the work ends here.
    pub fn file_to_remove(&self) -> (r: Option<&str>)
        requires
            self.wf(),
        ensures
            r is Some <==> self@.committed == Some(false),
            r matches Some(name) ==> name@ == self@.temp,
    {
        match &self.guard {
            Some(guard) => guard.file_to_remove(),
            None => None,
        }
    }

    /// Takes note of an event.
    pub fn after(self, event: FetchEvent) -> (r: Fetch)
        requires
            self.wf(),
            can_follow(self@.next, event@),
        ensures
            r.wf(),
            r@ == self@.after(event@),
    {
        proof {
            self@.lemma_after_is_reachable(event@);
        }
        match event {
            FetchEvent::DirChecked(exists) => if exists {
                self.then_do(FetchAction::ReadCache)
            } else {
                self.then_do(FetchAction::CreateDir)
            },
            FetchEvent::DirCreated(Ok(_)) => self.then_do(FetchAction::ReadCache),
            FetchEvent::DirCreated(Err(reason)) => self.fail(InferaError::CacheDirError(reason)),
            FetchEvent::CacheRead { model_present, etag } => {
                let known: String = match etag {
                    Some(etag) => if model_present {
                        text::trim(etag.as_str())
                    } else {
                        String::new()
                    },
                    None => String::new(),
                };
                let guard: TempFileGuard = TempFileGuard::new(self.files.temp.as_str());
                Fetch { etag: known, guard: Some(guard), ..self }.try_next()
            },
            FetchEvent::Downloaded(Ok(Some((true, _)))) => self.then_do(FetchAction::Touch),
            FetchEvent::Downloaded(Ok(Some((false, etag)))) => Fetch {
                new_etag: etag,
                next: FetchAction::Measure,
                ..self
            },
            FetchEvent::Downloaded(Ok(None)) => self.try_next(),
            FetchEvent::Downloaded(Err(error)) => {
                let attempt: u32 = self.attempt;
                let failed: Fetch = Fetch { last_error: Some(error), ..self };
                if attempt < failed.max_attempts {
                    let delay: u64 = retry_delay(failed.retry_delay_ms, attempt);
                    failed.then_do(FetchAction::Wait(delay))
                } else {
                    failed.try_next()
                }
            },
            FetchEvent::Waited => self.try_next(),
            FetchEvent::Measured(Ok(size)) => self.then_do(FetchAction::Evict(size)),
            FetchEvent::Evicted(Ok(_)) => self.then_do(FetchAction::Rename),
            FetchEvent::Renamed(Ok(_)) => {
                let etag: String = self.new_etag.clone();
                self.then_do(FetchAction::WriteEtag(etag))
            },
            FetchEvent::EtagWritten(Ok(_)) => self.succeed(),
            FetchEvent::Touched(Ok(_)) => {
                let name: String = self.files.model.clone();
                self.then_do(FetchAction::Finish(Ok(name)))
            },
            FetchEvent::Measured(Err(reason)) => self.fail(InferaError::IoError(reason)),
            FetchEvent::Renamed(Err(reason)) => self.fail(InferaError::IoError(reason)),
            FetchEvent::EtagWritten(Err(reason)) => self.fail(InferaError::IoError(reason)),
            FetchEvent::Evicted(Err(error)) => self.fail(error),
            FetchEvent::Touched(Err(error)) => self.fail(error),
        }
    }

    /// The result of work that is done.
    pub fn into_result(self) -> (r: Result<String, InferaError>)
        requires
            self@.next is Finish,
        ensures
            r matches Ok(name) ==> self@.next == ActionView::Finish(Ok(name@)),
            r matches Err(error) ==> self@.next == ActionView::Finish(Err(error@)),
    {
        match self.next {
            FetchAction::Finish(result) => result,
            _ => vstd::pervasive::unreached(),
        }
    }

    /// The guard, once it is up, is one of the temporary file.
    spec fn guards_temp(&self) -> bool {
        self.guard matches Some(guard) ==> guard.path() == self.files.temp@
    }

    /// What is to be done next is `next`.
    fn then_do(self, next: FetchAction) -> (r: Fetch)
        requires
            self.guards_temp(),
        ensures
            r.guards_temp(),
            r@ == self@.then_do(next@),
    {
        Fetch { next, ..self }
    }

    /// There is nothing more to do: the work failed.
    fn fail(self, error: InferaError) -> (r: Fetch)
        requires
            self.guards_temp(),
        ensures
            r.guards_temp(),
            r@ == self@.fail(error@),
    {
        self.then_do(FetchAction::Finish(Err(error)))
    }

    /// There is nothing more to do: the download has been moved to the model's place.
    fn succeed(self) -> (r: Fetch)
        requires
            self.guards_temp(),
            self@.committed is Some,
        ensures
            r.guards_temp(),
            r@ == self@.succeed(),
    {
        let mut guard: Option<TempFileGuard> = None;
        let mut done: Fetch = self;
        if let Some(mut g) = done.guard {
            g.commit();
            guard = Some(g);
        }
        let name: String = done.files.model.clone();
        Fetch { guard, next: FetchAction::Finish(Ok(name)), ..done }
    }

    /// The next download begins, if there is one left.
    fn try_next(self) -> (r: Fetch)
        requires
            self.guards_temp(),
        ensures
            r.guards_temp(),
            r@ == self@.try_next(),
    {
        if self.attempt < self.max_attempts {
            let url: String = self.url.clone();
            let etag: String = self.etag.clone();
            let timeout_secs: u64 = self.timeout_secs;
            Fetch {
                attempt: self.attempt + 1,
                next: FetchAction::Download { url, etag, timeout_secs },
                ..self
            }
        } else {
            let error: InferaError = match self.last_error {
                Some(error) => error,
                None => InferaError::HttpRequestError("Unknown download error".to_owned()),
            };
            Fetch { last_error: None, next: FetchAction::Finish(Err(error)), ..self }
        }
    }
}

impl FetchView {
    /// What is to be done fits what has been done.
    pub open spec fn is_reachable(self) -> bool {
        &&& 0 <= self.attempt <= self.max_attempts
        &&& match self.next {
            ActionView::CheckDir | ActionView::CreateDir | ActionView::ReadCache => self.attempt
                == 0 && self.committed is None && self.last_error is None,
            ActionView::Download { url, etag, timeout_secs } => {
                &&& self.attempt > 0
                &&& self.committed == Some(false)
                &&& url == self.url
                &&& etag == self.etag
                &&& timeout_secs == self.timeout_secs
            },
            ActionView::Wait(ms) => 0 < self.attempt < self.max_attempts && self.committed == Some(
                false,
            ) && ms == backoff(self.retry_delay_ms, self.attempt),
            ActionView::Measure | ActionView::Evict(_) | ActionView::Rename | ActionView::Touch =>
            self.attempt > 0 && self.committed == Some(false),
            ActionView::WriteEtag(etag) => self.attempt > 0 && self.committed == Some(false) && etag
                == self.new_etag,
            ActionView::Finish(Ok(name)) => self.attempt > 0 && self.committed is Some && name
                == self.model,
            ActionView::Finish(Err(_)) => self.committed != Some(true),
        }
    }

    /// An event that can come leaves what is to be done fitting.
    pub proof fn lemma_after_is_reachable(self, event: EventView)
        requires
            self.is_reachable(),
            can_follow(self.next, event),
        ensures
            self.after(event).is_reachable(),
    {
    }
}

} // verus!
