//! The calls that the extension answers.
//!
//! An argument that is a C string comes as the bytes up to its terminator, or as
//! `None` for a null pointer.

use crate::autoload::{self, Attempt};
use crate::cache::{self, CacheListing};
use crate::clear::{self, ClearAction, ClearEvent};
use crate::config::{self, Config};
use crate::error::{ErrorView, InferaError, LastError};
use crate::json::{self, JsonTree};
use crate::registry::ModelRegistry;
use crate::text;
use serde_json::Value;
use vstd::prelude::*;

verus! {

/// How many bytes a 32-bit value has.
pub const VALUE_SIZE: usize = 4;

/// The message of the last error after a call that reported `error`, or none.
pub open spec fn last_message(before: Option<Seq<char>>, error: Option<ErrorView>) -> Option<
    Seq<char>,
> {
    match error {
        Some(error) => Some(error.message()),
        None => before,
    }
}

/// Ends a call that answers with a status: 0 for success. A failure is answered
/// with -1, and its message is kept as that of the last error.
pub fn finish_status(result: Result<(), InferaError>, last_error: &mut LastError) -> (r: i32)
    ensures
        result is Ok ==> r == 0 && final(last_error)@ == old(last_error)@,
        result matches Err(error) ==> r == -1 && final(last_error)@ == Some(error@.message()),
{
    match result {
        Ok(_) => 0,
        Err(error) => {
            last_error.set_last_error(&error);
            -1
        },
    }
}

/// Answers a call that failed with the status -1, and keeps the message as that of
/// the last error.
fn failed(error: InferaError, last_error: &mut LastError) -> (r: i32)
    ensures
        r == -1,
        final(last_error)@ == Some(error@.message()),
{
    finish_status(Err(error), last_error)
}

/// Answers a call that failed with an object that tells the error, and keeps the
/// message as that of the last error.
fn failed_reply(error: InferaError, last_error: &mut LastError) -> (r: String)
    ensures
        r@ == json::json_text(json::error_tree(error@)),
        !r@.contains('\0'),
        final(last_error)@ == Some(error@.message()),
{
    last_error.set_last_error(&error);
    json::error_reply(&error)
}

/// Where a model comes from.
#[derive(Debug, PartialEq, Eq)]
pub enum ModelSource {
    /// The file at the path.
    Local(String),
    /// The file at the URL.
    Remote(String),
}

/// A model to load.
#[derive(Debug, PartialEq, Eq)]
pub struct LoadRequest {
    /// The name to load it under.
    pub name: String,
    /// Where it comes from.
    pub source: ModelSource,
}

/// Tells whether a path names a remote model.
pub open spec fn is_url(path: Seq<char>) -> bool {
    "http://"@.is_prefix_of(path) || "https://"@.is_prefix_of(path)
}

/// The texts of two arguments. That one of them is null is seen before that one
/// of them is not valid UTF-8.
pub open spec fn two_texts(a: Option<Seq<u8>>, b: Option<Seq<u8>>) -> Result<
    (Seq<char>, Seq<char>),
    ErrorView,
> {
    if a is None || b is None {
        Err(ErrorView::NullPointer)
    } else {
        match (text::argument_text(a), text::argument_text(b)) {
            (Ok(x), Ok(y)) => Ok((x, y)),
            _ => Err(ErrorView::Utf8Error),
        }
    }
}

/// Begins a call to load a model: a path that begins with `http://` or `https://`
/// names a remote model, and any other a local file. Gives what to load, or the
/// status that answers the call.
pub fn infera_load_model(
    name: Option<&[u8]>,
    path: Option<&[u8]>,
    last_error: &mut LastError,
) -> (r: Result<LoadRequest, i32>)
    ensures
        two_texts(text::bytes_of(name), text::bytes_of(path)) matches Err(error) ==> {
            &&& r is Err
            &&& r->Err_0 == -1
            &&& final(last_error)@ == Some(error.message())
        },
        two_texts(text::bytes_of(name), text::bytes_of(path)) matches Ok((name, path)) ==> {
            &&& r matches Ok(request)
            &&& request.name@ == name
            &&& match request.source {
                ModelSource::Remote(url) => is_url(path) && url@ == path,
                ModelSource::Local(file) => !is_url(path) && file@ == path,
            }
            &&& final(last_error)@ == old(last_error)@
        },
        name is Some && path is Some && vstd::utf8::valid_utf8(name->0@) && vstd::utf8::valid_utf8(
            path->0@,
        ) ==> {
            let text = vstd::utf8::decode_utf8(path->0@);
            &&& r matches Ok(request)
            &&& request.name@ == vstd::utf8::decode_utf8(name->0@)
            &&& "http://"@.is_prefix_of(text) || "https://"@.is_prefix_of(text) ==> {
                request.source matches ModelSource::Remote(url) && url@ == text
            }
            &&& !"http://"@.is_prefix_of(text) && !"https://"@.is_prefix_of(text) ==> {
                request.source matches ModelSource::Local(file) && file@ == text
            }
        },
{
    if name.is_none() || path.is_none() {
        return Err(failed(InferaError::NullPointer, last_error));
    }
    let name: String = match text::text_argument(name) {
        Ok(name) => name,
        Err(error) => {
            return Err(failed(error, last_error));
        },
    };
    let path: String = match text::text_argument(path) {
        Ok(path) => path,
        Err(error) => {
            return Err(failed(error, last_error));
        },
    };
    let remote: bool = text::starts_with(path.as_str(), "http://") || text::starts_with(
        path.as_str(),
        "https://",
    );
    let source: ModelSource = if remote {
        ModelSource::Remote(path)
    } else {
        ModelSource::Local(path)
    };
    Ok(LoadRequest { name, source })
}

/// The path of a remote model once it is in the cache, given the path as text,
/// where it is valid UTF-8.
pub fn fetched_path(fetched: Result<Option<String>, InferaError>) -> (r: Result<String, InferaError>)
    ensures
        fetched matches Ok(Some(path)) ==> r is Ok && r->Ok_0@ == path@,
        fetched matches Ok(None) ==> r is Err && r->Err_0@ == ErrorView::Utf8Error,
        fetched matches Err(error) ==> r is Err && r->Err_0@ == error@,
{
    match fetched {
        Ok(Some(path)) => Ok(path),
        Ok(None) => Err(InferaError::Utf8Error),
        Err(error) => Err(error),
    }
}

/// Ends a call to load a model, given the name and the model that the backend
/// made of the file, or what went wrong.
pub fn finish_load<M>(
    loaded: Result<(String, M), InferaError>,
    models: &mut ModelRegistry<M>,
    last_error: &mut LastError,
) -> (r: i32)
    requires
        old(models).wf(),
    ensures
        final(models).wf(),
        loaded matches Ok((name, model)) ==> {
            &&& r == 0
            &&& final(models)@ == old(models)@.insert(name@, model)
            &&& final(models).names() == if old(models)@.contains_key(name@) {
                old(models).names()
            } else {
                old(models).names().push(name@)
            }
            &&& final(last_error)@ == old(last_error)@
        },
        loaded matches Err(error) ==> {
            &&& r == -1
            &&& final(models)@ == old(models)@
            &&& final(models).names() == old(models).names()
            &&& final(last_error)@ == Some(error@.message())
        },
{
    match loaded {
        Ok((name, model)) => {
            models.insert(name.as_str(), model);
            finish_status(Ok(()), last_error)
        },
        Err(error) => finish_status(Err(error), last_error),
    }
}

/// The error of a call on the model with the name, if there is no such model.
pub open spec fn missing_model<M>(models: Map<Seq<char>, M>, name: Option<Seq<u8>>) -> Option<
    ErrorView,
> {
    match text::argument_text(name) {
        Err(error) => Some(error),
        Ok(name) => if models.contains_key(name) {
            None
        } else {
            Some(ErrorView::ModelNotFound(name))
        },
    }
}

/// The text of an argument.
pub open spec fn name_of(name: Option<Seq<u8>>) -> Seq<char> {
    text::argument_text(name)->Ok_0
}

/// Unloads the model with the name. Answers 0, or -1 where there is none.
pub fn infera_unload_model<M>(
    name: Option<&[u8]>,
    models: &mut ModelRegistry<M>,
    last_error: &mut LastError,
) -> (r: i32)
    requires
        old(models).wf(),
    ensures
        final(models).wf(),
        final(last_error)@ == last_message(
            old(last_error)@,
            missing_model(old(models)@, text::bytes_of(name)),
        ),
        missing_model(old(models)@, text::bytes_of(name)) is None ==> {
            let name = name_of(text::bytes_of(name));
            &&& r == 0
            &&& final(models)@ == old(models)@.remove(name)
            &&& final(models).names() == old(models).names().remove(
                old(models).names().index_of(name),
            )
        },
        missing_model(old(models)@, text::bytes_of(name)) is Some ==> {
            &&& r == -1
            &&& final(models)@ == old(models)@
            &&& final(models).names() == old(models).names()
        },
{
    let result: Result<(), InferaError> = match text::text_argument(name) {
        Err(error) => Err(error),
        Ok(name) => match models.remove(name.as_str()) {
            Some(_) => Ok(()),
            None => {
                assert(models@ =~= old(models)@);
                Err(InferaError::ModelNotFound(name))
            },
        },
    };
    finish_status(result, last_error)
}

/// The model with the name.
pub fn find_model<'a, M>(name: Option<&[u8]>, models: &'a ModelRegistry<M>) -> (r: Result<
    &'a M,
    InferaError,
>)
    requires
        models.wf(),
    ensures
        missing_model(models@, text::bytes_of(name)) is None ==> r is Ok && *r->Ok_0
            == models@[name_of(text::bytes_of(name))],
        missing_model(models@, text::bytes_of(name)) matches Some(error) ==> r is Err && r->Err_0@
            == error,
{
    match text::text_argument(name) {
        Err(error) => Err(error),
        Ok(name) => models.find(name.as_str()),
    }
}

/// The error of a call to run a model on a table of values, if it cannot be run.
pub open spec fn predict_error<M>(
    models: Map<Seq<char>, M>,
    name: Option<Seq<u8>>,
    has_data: bool,
) -> Option<ErrorView> {
    if has_data {
        missing_model(models, name)
    } else {
        Some(ErrorView::NullPointer)
    }
}

/// Begins a call to run a model on a table of values. Gives the model to run, or
/// the status that answers the call.
pub fn infera_predict<'a, M>(
    model_name: Option<&[u8]>,
    has_data: bool,
    models: &'a ModelRegistry<M>,
    last_error: &mut LastError,
) -> (r: Result<&'a M, i32>)
    requires
        models.wf(),
    ensures
        final(last_error)@ == last_message(
            old(last_error)@,
            predict_error(models@, text::bytes_of(model_name), has_data),
        ),
        predict_error(models@, text::bytes_of(model_name), has_data) is Some ==> r is Err && r->Err_0
            == -1,
        predict_error(models@, text::bytes_of(model_name), has_data) is None ==> r is Ok && *r->Ok_0
            == models@[name_of(text::bytes_of(model_name))],
{
    if !has_data {
        return Err(failed(InferaError::NullPointer, last_error));
    }
    match find_model(model_name, models) {
        Ok(model) => Ok(model),
        Err(error) => Err(failed(error, last_error)),
    }
}

/// The error of a call to run a model on a BLOB, if it cannot be run.
pub open spec fn blob_error<M>(
    models: Map<Seq<char>, M>,
    name: Option<Seq<u8>>,
    blob: Option<Seq<u8>>,
) -> Option<ErrorView> {
    match (text::argument_text(name), blob) {
        (_, None) => Some(ErrorView::NullPointer),
        (Err(error), _) => Some(error),
        (Ok(_), Some(bytes)) => if bytes.len() % VALUE_SIZE as nat != 0 {
            Some(ErrorView::InvalidBlobSize)
        } else {
            missing_model(models, name)
        },
    }
}

/// Begins a call to run a model on a BLOB. Gives the model to run and the number
/// of 32-bit values in the BLOB, or the status that answers the call.
pub fn infera_predict_from_blob<'a, M>(
    model_name: Option<&[u8]>,
    blob: Option<&[u8]>,
    models: &'a ModelRegistry<M>,
    last_error: &mut LastError,
) -> (r: Result<(&'a M, usize), i32>)
    requires
        models.wf(),
    ensures
        final(last_error)@ == last_message(
            old(last_error)@,
            blob_error(models@, text::bytes_of(model_name), text::bytes_of(blob)),
        ),
        blob_error(models@, text::bytes_of(model_name), text::bytes_of(blob)) is Some ==> r is Err
            && r->Err_0 == -1,
        blob_error(models@, text::bytes_of(model_name), text::bytes_of(blob)) is None ==> {
            &&& r matches Ok((model, values))
            &&& *model == models@[name_of(text::bytes_of(model_name))]
            &&& values * VALUE_SIZE == blob->0@.len()
        },
        blob matches Some(bytes) && bytes@.len() % 4 == 0 && model_name is Some
            && vstd::utf8::valid_utf8(model_name->0@) && models@.contains_key(
            vstd::utf8::decode_utf8(model_name->0@),
        ) ==> {
            &&& r matches Ok((model, values))
            &&& *model == models@[vstd::utf8::decode_utf8(model_name->0@)]
            &&& 4 * values == blob->0@.len()
            &&& final(last_error)@ == old(last_error)@
        },
        blob matches Some(bytes) && bytes@.len() % 4 != 0 ==> r is Err && r->Err_0 == -1
            && final(last_error)@ is Some,
{
    let len: usize = match blob {
        None => {
            return Err(failed(InferaError::NullPointer, last_error));
        },
        Some(bytes) => bytes.len(),
    };
    let name: String = match text::text_argument(model_name) {
        Err(error) => {
            return Err(failed(error, last_error));
        },
        Ok(name) => name,
    };
    if len % VALUE_SIZE != 0 {
        return Err(failed(InferaError::InvalidBlobSize, last_error));
    }
    match models.find(name.as_str()) {
        Err(error) => Err(failed(error, last_error)),
        Ok(model) => Ok((model, len / VALUE_SIZE)),
    }
}

/// Begins a call for what is known of a model. Gives the model to ask the backend
/// about, or the text that answers the call.
pub fn infera_get_model_info<'a, M>(
    model_name: Option<&[u8]>,
    models: &'a ModelRegistry<M>,
    last_error: &mut LastError,
) -> (r: Result<&'a M, String>)
    requires
        models.wf(),
    ensures
        final(last_error)@ == last_message(
            old(last_error)@,
            missing_model(models@, text::bytes_of(model_name)),
        ),
        missing_model(models@, text::bytes_of(model_name)) matches Some(error) ==> {
            &&& r is Err
            &&& r->Err_0@ == json::json_text(json::error_tree(error))
            &&& !r->Err_0@.contains('\0')
        },
        missing_model(models@, text::bytes_of(model_name)) is None ==> r is Ok && *r->Ok_0
            == models@[name_of(text::bytes_of(model_name))],
{
    match find_model(model_name, models) {
        Ok(model) => Ok(model),
        Err(error) => Err(failed_reply(error, last_error)),
    }
}

/// Ends a call for what is known of a model, with the JSON text that the backend
/// gave, or with an object that tells the error.
pub fn finish_model_info(
    metadata: Result<String, InferaError>,
    last_error: &mut LastError,
) -> (r: String)
    ensures
        metadata matches Ok(json) ==> r@ == text::c_text_of(json@) && final(last_error)@
            == old(last_error)@,
        metadata matches Err(error) ==> r@ == json::json_text(json::error_tree(error@))
            && final(last_error)@ == Some(error@.message()),
        !r@.contains('\0'),
{
    match metadata {
        Ok(json) => text::c_text(json),
        Err(error) => failed_reply(error, last_error),
    }
}

/// Answers with the array of the names of the loaded models.
pub fn infera_get_loaded_models<M>(models: &ModelRegistry<M>) -> (r: String)
    ensures
        r@ == json::json_text(json::text_list(models.names())),
        !r@.contains('\0'),
{
    json::value_reply(&json::text_list_value(models.loaded_names()))
}

/// What is told of the library.
pub open spec fn version_tree(
    version: Seq<char>,
    backend_enabled: bool,
    cache_dir: Seq<char>,
) -> JsonTree {
    JsonTree::Object(
        Map::empty().insert("version"@, JsonTree::Text(version)).insert(
            "onnx_backend"@,
            JsonTree::Text(
                if backend_enabled {
                    "tract"@
                } else {
                    "disabled"@
                },
            ),
        ).insert("model_cache_dir"@, JsonTree::Text(cache_dir)),
    )
}

/// Answers with the version of the library, its backend and the directory of its
/// cache.
pub fn infera_get_version(version: &str, backend_enabled: bool, config: &Config) -> (r: String)
    ensures
        r@ == json::json_text(
            version_tree(version@, backend_enabled, text::utf8_lossy(config.cache_dir@)),
        ),
        vstd::utf8::valid_utf8(config.cache_dir@) ==> text::utf8_lossy(config.cache_dir@)
            == vstd::utf8::decode_utf8(config.cache_dir@),
        !r@.contains('\0'),
{
    let backend: &str = if backend_enabled {
        "tract"
    } else {
        "disabled"
    };
    let dir: String = config::cache_dir_text(config);
    let mut fields: Vec<(String, Value)> = Vec::new();
    proof {
        reveal_strlit("version");
        reveal_strlit("onnx_backend");
        reveal_strlit("model_cache_dir");
        assert("version"@.len() < "onnx_backend"@.len() < "model_cache_dir"@.len());
    }
    json::add_field(&mut fields, "version", json::text_value(version));
    json::add_field(&mut fields, "onnx_backend", json::text_value(backend));
    json::add_field(&mut fields, "model_cache_dir", json::text_value(dir.as_str()));
    json::value_reply(&json::object_value(fields))
}

/// Ends a call to clear the cache, given what came of it. The loaded models are not
/// touched: the call does not get at them.
pub fn infera_clear_cache(result: Result<(), InferaError>, last_error: &mut LastError) -> (r: i32)
    ensures
        result is Ok ==> r == 0 && final(last_error)@ == old(last_error)@,
        result matches Err(error) ==> r == -1 && final(last_error)@ == Some(error@.message()),
{
    finish_status(result, last_error)
}

/// What is told of the cache.
pub open spec fn cache_info_tree(
    cache_dir: Seq<char>,
    total_size: int,
    file_count: int,
    size_limit: int,
) -> JsonTree {
    JsonTree::Object(
        Map::empty().insert("cache_dir"@, JsonTree::Text(cache_dir)).insert(
            "total_size_bytes"@,
            JsonTree::Number(total_size),
        ).insert("file_count"@, JsonTree::Number(file_count)).insert(
            "size_limit_bytes"@,
            JsonTree::Number(size_limit),
        ),
    )
}

/// Answers with the directory of the cache, the size and the number of the
/// models in it, and its size limit, or with an object that tells the error.
pub fn infera_get_cache_info(
    config: &Config,
    listing: &CacheListing,
    last_error: &mut LastError,
) -> (r: String)
    requires
        cache::cached_size(listing.entries()) <= u64::MAX,
    ensures
        listing matches CacheListing::Unreadable(reason) ==> {
            let error = ErrorView::IoError(reason@);
            r@ == json::json_text(json::error_tree(error)) && final(last_error)@ == Some(
                error.message(),
            )
        },
        !(listing is Unreadable) ==> r@ == json::json_text(
            cache_info_tree(
                text::utf8_lossy(config.cache_dir@),
                cache::cached_size(listing.entries()),
                cache::cached_count(listing.entries()),
                config.cache_size_limit as int,
            ),
        ) && final(last_error)@ == old(last_error)@,
        !(listing is Unreadable) && vstd::utf8::valid_utf8(config.cache_dir@)
            ==> text::utf8_lossy(config.cache_dir@) == vstd::utf8::decode_utf8(config.cache_dir@),
        !r@.contains('\0'),
{
    if let CacheListing::Unreadable(reason) = listing {
        return failed_reply(InferaError::IoError(reason.clone()), last_error);
    }
    let dir: String = config::cache_dir_text(config);
    let (total_size, file_count): (u64, usize) = cache::cache_usage(listing);
    let mut fields: Vec<(String, Value)> = Vec::new();
    proof {
        reveal_strlit("cache_dir");
        reveal_strlit("total_size_bytes");
        reveal_strlit("file_count");
        reveal_strlit("size_limit_bytes");
        assert("cache_dir"@.len() < "file_count"@.len() < "total_size_bytes"@.len());
        assert("file_count"@.len() < "size_limit_bytes"@.len());
        assert("total_size_bytes"@[0] != "size_limit_bytes"@[0]);
    }
    json::add_field(&mut fields, "cache_dir", json::text_value(dir.as_str()));
    json::add_field(&mut fields, "total_size_bytes", json::number_value(total_size));
    json::add_field(&mut fields, "file_count", json::number_value(file_count as u64));
    json::add_field(
        &mut fields,
        "size_limit_bytes",
        json::number_value(config::get_cache_size_limit(config)),
    );
    json::value_reply(&json::object_value(fields))
}

/// Begins a call to load every model of a directory. Gives the directory to list,
/// or the text that answers the call.
pub fn infera_set_autoload_dir(path: Option<&[u8]>, last_error: &mut LastError) -> (r: Result<
    String,
    String,
>)
    ensures
        text::argument_text(text::bytes_of(path)) matches Ok(dir) ==> {
            &&& r is Ok
            &&& r->Ok_0@ == dir
            &&& final(last_error)@ == old(last_error)@
        },
        text::argument_text(text::bytes_of(path)) matches Err(error) ==> {
            &&& r is Err
            &&& r->Err_0@ == json::json_text(json::error_tree(error))
            &&& !r->Err_0@.contains('\0')
            &&& final(last_error)@ == Some(error.message())
        },
{
    match text::text_argument(path) {
        Ok(dir) => Ok(dir),
        Err(error) => Err(failed_reply(error, last_error)),
    }
}

/// Ends a call to load every model of a directory, with the names of the models
/// that were loaded and the errors of those that were not, or with an object that
/// tells why the directory could not be read.
pub fn finish_autoload(
    attempts: Result<Vec<Attempt>, InferaError>,
    last_error: &mut LastError,
) -> (r: String)
    ensures
        attempts matches Ok(attempts) ==> r@ == json::json_text(autoload::report_tree(attempts@))
            && final(last_error)@ == old(last_error)@,
        attempts matches Err(error) ==> r@ == json::json_text(json::error_tree(error@))
            && final(last_error)@ == Some(error@.message()),
        !r@.contains('\0'),
{
    match attempts {
        Ok(attempts) => autoload::autoload_report(&attempts),
        Err(error) => failed_reply(error, last_error),
    }
}

/// After clearing the cache has ended well, with nothing written in between, what
/// is told of the cache is that it has no models and takes up no space.
pub proof fn law_cleared_cache_is_told_to_be_empty(
    names: Seq<Seq<u8>>,
    events: Seq<ClearEvent>,
    actions: Seq<ClearAction>,
    later: CacheListing,
    cache_dir: Seq<char>,
    size_limit: int,
)
    requires
        clear::is_run(events, actions),
        clear::is_over(names, events),
        actions.last() == ClearAction::Finish(Ok(())),
        forall|i: int|
            0 <= i < later.entries().len() ==> clear::names_left(names, events).contains(
                (#[trigger] later.entries()[i]).name@,
            ),
    ensures
        cache_info_tree(
            cache_dir,
            cache::cached_size(later.entries()),
            cache::cached_count(later.entries()),
            size_limit,
        ) == cache_info_tree(cache_dir, 0, 0, size_limit),
{
    clear::law_cleared_cache_has_no_models(names, events, actions, later);
}

/// A name that is free stands for nothing again once the model that was loaded
/// under it is unloaded, and other names are not touched.
pub proof fn law_unloading_undoes_loading<M>(
    models: Map<Seq<char>, M>,
    name: Seq<char>,
    model: M,
)
    requires
        !models.contains_key(name),
    ensures
        models.insert(name, model).contains_key(name),
        models.insert(name, model)[name] == model,
        models.insert(name, model).remove(name) == models,
{
    assert(models.insert(name, model).remove(name) =~= models);
}

/// A model that was unloaded cannot be found, unloaded or run until a model is
/// loaded under the name again.
pub proof fn law_unloaded_model_is_missing<M>(
    models: Map<Seq<char>, M>,
    name: Option<Seq<u8>>,
    blob: Option<Seq<u8>>,
)
    requires
        missing_model(models, name) is None,
    ensures
        missing_model(models.remove(name_of(name)), name) == Some(
            ErrorView::ModelNotFound(name_of(name)),
        ),
        predict_error(models.remove(name_of(name)), name, true) == Some(
            ErrorView::ModelNotFound(name_of(name)),
        ),
        blob_error(models.remove(name_of(name)), name, blob) is Some,
{
}

/// A null pointer is answered with an error, whatever the other argument is and
/// whichever models are loaded.
pub proof fn law_null_pointers_are_refused<M>(
    models: Map<Seq<char>, M>,
    other: Option<Seq<u8>>,
)
    ensures
        two_texts(None, other) == Err::<(Seq<char>, Seq<char>), ErrorView>(ErrorView::NullPointer),
        two_texts(other, None) == Err::<(Seq<char>, Seq<char>), ErrorView>(ErrorView::NullPointer),
        missing_model(models, None) == Some(ErrorView::NullPointer),
        predict_error(models, None, true) == Some(ErrorView::NullPointer),
        predict_error(models, other, false) == Some(ErrorView::NullPointer),
        text::argument_text(None) == Err::<Seq<char>, ErrorView>(ErrorView::NullPointer),
        blob_error(models, None, other) == Some(ErrorView::NullPointer),
        blob_error(models, other, None) == Some(ErrorView::NullPointer),
{
}

/// A path that begins with `http://` or `https://` is a URL, whatever follows.
pub proof fn law_prefix_makes_a_url(rest: Seq<char>)
    ensures
        is_url("http://"@ + rest),
        is_url("https://"@ + rest),
{
    assert(("http://"@ + rest).take("http://"@.len() as int) =~= "http://"@);
    assert(("https://"@ + rest).take("https://"@.len() as int) =~= "https://"@);
    assert("http://"@.is_prefix_of("http://"@ + rest));
    assert("https://"@.is_prefix_of("https://"@ + rest));
}

/// A path is a URL exactly where its first characters are `http://` or `https://`.
/// Every other path is that of a local file.
pub proof fn law_urls_have_a_prefix(path: Seq<char>)
    ensures
        is_url(path) <==> {
            ||| path.len() >= 7 && path.take(7) == seq!['h', 't', 't', 'p', ':', '/', '/']
            ||| path.len() >= 8 && path.take(8) == seq!['h', 't', 't', 'p', 's', ':', '/', '/']
        },
{
    reveal_strlit("http://");
    reveal_strlit("https://");
    assert("http://"@ =~= seq!['h', 't', 't', 'p', ':', '/', '/']);
    assert("https://"@ =~= seq!['h', 't', 't', 'p', 's', ':', '/', '/']);
    if path.len() >= 7 {
        assert("http://"@.is_prefix_of(path) <==> path.take(7) =~= "http://"@);
    }
    if path.len() >= 8 {
        assert("https://"@.is_prefix_of(path) <==> path.take(8) =~= "https://"@);
    }
}

/// Two arguments that encode texts stand for these texts, whichever they are.
pub proof fn law_texts_of_two_arguments(a: Seq<char>, b: Seq<char>)
    ensures
        two_texts(Some(vstd::utf8::encode_utf8(a)), Some(vstd::utf8::encode_utf8(b))) == Ok::<
            (Seq<char>, Seq<char>),
            ErrorView,
        >((a, b)),
{
    text::law_arguments_stand_for_the_text_they_encode(a, Seq::empty());
    text::law_arguments_stand_for_the_text_they_encode(b, Seq::empty());
}

/// Where one of two arguments does not encode a text, that is the error.
pub proof fn law_bytes_that_are_no_text_are_refused<M>(
    models: Map<Seq<char>, M>,
    bad: Seq<u8>,
    other: Seq<u8>,
)
    requires
        !vstd::utf8::valid_utf8(bad),
    ensures
        two_texts(Some(bad), Some(other)) == Err::<(Seq<char>, Seq<char>), ErrorView>(
            ErrorView::Utf8Error,
        ),
        two_texts(Some(other), Some(bad)) == Err::<(Seq<char>, Seq<char>), ErrorView>(
            ErrorView::Utf8Error,
        ),
        missing_model(models, Some(bad)) == Some(ErrorView::Utf8Error),
        predict_error(models, Some(bad), true) == Some(ErrorView::Utf8Error),
        blob_error(models, Some(bad), Some(other)) == Some(ErrorView::Utf8Error),
{
}

/// A model that is loaded is found under its name, whatever the name is, and can
/// be run on values that are there. A name under which none is loaded is told.
pub proof fn law_loaded_models_are_found<M>(models: Map<Seq<char>, M>, name: Seq<char>)
    ensures
        name_of(Some(vstd::utf8::encode_utf8(name))) == name,
        models.contains_key(name) ==> {
            &&& missing_model(models, Some(vstd::utf8::encode_utf8(name))) is None
            &&& predict_error(models, Some(vstd::utf8::encode_utf8(name)), true) is None
        },
        !models.contains_key(name) ==> {
            &&& missing_model(models, Some(vstd::utf8::encode_utf8(name))) == Some(
                ErrorView::ModelNotFound(name),
            )
            &&& predict_error(models, Some(vstd::utf8::encode_utf8(name)), true) == Some(
                ErrorView::ModelNotFound(name),
            )
        },
{
    text::law_arguments_stand_for_the_text_they_encode(name, Seq::empty());
}

/// A loaded model can be run on every BLOB whose length is four times some number,
/// and on no other. Where the model is not loaded, that is the error once the
/// length is right.
pub proof fn law_blobs_of_whole_values_are_accepted<M>(
    models: Map<Seq<char>, M>,
    name: Seq<char>,
    blob: Seq<u8>,
    n: int,
)
    ensures
        blob.len() == 4 * n && models.contains_key(name) ==> blob_error(
            models,
            Some(vstd::utf8::encode_utf8(name)),
            Some(blob),
        ) is None,
        blob.len() == 4 * n && !models.contains_key(name) ==> blob_error(
            models,
            Some(vstd::utf8::encode_utf8(name)),
            Some(blob),
        ) == Some(ErrorView::ModelNotFound(name)),
        4 * n < blob.len() < 4 * n + 4 ==> blob_error(
            models,
            Some(vstd::utf8::encode_utf8(name)),
            Some(blob),
        ) == Some(ErrorView::InvalidBlobSize),
        VALUE_SIZE == 4,
{
    text::law_arguments_stand_for_the_text_they_encode(name, Seq::empty());
}

/// A call that reports no error leaves the last one as it was. One that does puts
/// its message in the place of the one before.
pub proof fn law_last_error(before: Option<Seq<char>>, error: ErrorView)
    ensures
        last_message(before, None) == before,
        last_message(before, Some(error)) == Some(error.message()),
{
}

/// What is told of the library and of its cache stands under these keys.
pub proof fn law_answers_have_these_keys(
    version: Seq<char>,
    backend_enabled: bool,
    cache_dir: Seq<char>,
    total_size: int,
    file_count: int,
    size_limit: int,
)
    ensures
        version_tree(version, backend_enabled, cache_dir) matches JsonTree::Object(fields) && {
            &&& fields.dom() == set!["version"@, "onnx_backend"@, "model_cache_dir"@]
            &&& fields["version"@] == JsonTree::Text(version)
            &&& backend_enabled ==> fields["onnx_backend"@] == JsonTree::Text("tract"@)
            &&& !backend_enabled ==> fields["onnx_backend"@] == JsonTree::Text("disabled"@)
            &&& fields["model_cache_dir"@] == JsonTree::Text(cache_dir)
        },
        cache_info_tree(cache_dir, total_size, file_count, size_limit) matches JsonTree::Object(
            fields,
        ) && {
            &&& fields.dom() == set![
                "cache_dir"@,
                "total_size_bytes"@,
                "file_count"@,
                "size_limit_bytes"@,
            ]
            &&& fields["cache_dir"@] == JsonTree::Text(cache_dir)
            &&& fields["total_size_bytes"@] == JsonTree::Number(total_size)
            &&& fields["file_count"@] == JsonTree::Number(file_count)
            &&& fields["size_limit_bytes"@] == JsonTree::Number(size_limit)
        },
{
    reveal_strlit("version");
    reveal_strlit("onnx_backend");
    reveal_strlit("model_cache_dir");
    reveal_strlit("cache_dir");
    reveal_strlit("total_size_bytes");
    reveal_strlit("file_count");
    reveal_strlit("size_limit_bytes");
    assert("version"@.len() < "onnx_backend"@.len() < "model_cache_dir"@.len());
    assert("cache_dir"@.len() < "file_count"@.len() < "total_size_bytes"@.len());
    assert("file_count"@.len() < "size_limit_bytes"@.len());
    assert("total_size_bytes"@[0] != "size_limit_bytes"@[0]);
    assert(version_tree(version, backend_enabled, cache_dir)->Object_0.dom() =~= set![
        "version"@,
        "onnx_backend"@,
        "model_cache_dir"@,
    ]);
    assert(cache_info_tree(cache_dir, total_size, file_count, size_limit)->Object_0.dom() =~= set![
        "cache_dir"@,
        "total_size_bytes"@,
        "file_count"@,
        "size_limit_bytes"@,
    ]);
}

} // verus!
