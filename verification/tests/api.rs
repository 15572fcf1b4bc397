//! The calls: arguments, status codes, last error and JSON answers.

use infera::autoload::{autoload_candidates, note_load, AutoloadEntry, Candidate};
use infera::cache::{CacheEntry, CacheListing, CacheMetadata};
use infera::config::Config;
use infera::text::{c_text, starts_with, text_argument, trim};
use infera::{
    fetched_path, find_model, finish_autoload, finish_load, finish_model_info, finish_status,
    infera_clear_cache, infera_get_cache_info, infera_get_loaded_models, infera_get_model_info, infera_get_version,
    infera_load_model, infera_predict, infera_predict_from_blob, infera_set_autoload_dir,
    infera_unload_model, InferaError, LastError, LoadRequest, ModelRegistry, ModelSource,
};
use serde_json::Value;

fn parsed(text: &str) -> Value {
    serde_json::from_str(text).unwrap()
}

fn config() -> Config {
    Config {
        cache_dir: b"/tmp/infera_cache".to_vec(),
        cache_size_limit: 4096,
        http_retry_attempts: 3,
        http_retry_delay_ms: 1000,
        http_timeout_secs: 30,
    }
}

fn registry() -> ModelRegistry<u32> {
    let mut models = ModelRegistry::new();
    models.insert("test_model", 7);
    models
}

fn entry(name: &str) -> AutoloadEntry {
    AutoloadEntry {
        name: name.as_bytes().to_vec(),
        is_file: true,
        path: Some(format!("/models/{}", name)),
    }
}

#[test]
fn test_infera_get_version() {
    let text = infera_get_version("0.1.0", true, &config());
    let version_data = parsed(&text);
    assert!(version_data["version"].is_string());
    assert!(version_data["onnx_backend"].is_string());
    assert!(version_data["model_cache_dir"].is_string());
    assert_eq!(version_data["version"], "0.1.0");
    assert_eq!(version_data["onnx_backend"], "tract");
    assert_eq!(version_data["model_cache_dir"], "/tmp/infera_cache");
    let disabled = parsed(&infera_get_version("0.1.0", false, &config()));
    assert_eq!(disabled["onnx_backend"], "disabled");
    assert_eq!(disabled.as_object().unwrap().len(), 3);
}

#[test]
fn test_infera_set_autoload_dir() {
    let mut last = LastError::new();
    let candidates = autoload_candidates(Ok(vec![entry("linear.onnx")])).unwrap();
    let mut models = ModelRegistry::new();
    let attempts = candidates
        .into_iter()
        .map(|candidate| note_load(candidate, Ok(7), &mut models))
        .collect();
    assert_eq!(models.find("linear"), Ok(&7));
    assert_eq!(infera_get_loaded_models(&models), "[\"linear\"]");
    let result_data = parsed(&finish_autoload(Ok(attempts), &mut last));
    assert_eq!(result_data["loaded"].as_array().unwrap().len(), 1);
    assert_eq!(result_data["loaded"][0], "linear");
    assert_eq!(result_data["errors"].as_array().unwrap().len(), 0);
    assert_eq!(last.infera_last_error(), None);
}

#[test]
fn test_infera_set_autoload_dir_non_existent() {
    let mut last = LastError::new();
    let error = autoload_candidates(Err("No such file or directory".to_string())).unwrap_err();
    let result_data = parsed(&finish_autoload(Err(error), &mut last));
    assert!(result_data["error"].is_string());
    assert_eq!(
        last.infera_last_error().unwrap(),
        "IO error: No such file or directory"
    );
}

#[test]
fn test_infera_set_autoload_dir_invalid_model() {
    let mut last = LastError::new();
    let candidates = autoload_candidates(Ok(vec![entry("invalid.onnx")])).unwrap();
    let mut models: ModelRegistry<u32> = ModelRegistry::new();
    let attempts = candidates
        .into_iter()
        .map(|candidate| {
            let error = InferaError::OnnxError("bad data".to_string());
            note_load(candidate, Err(error), &mut models)
        })
        .collect();
    assert_eq!(infera_get_loaded_models(&models), "[]");
    let result_data = parsed(&finish_autoload(Ok(attempts), &mut last));
    assert_eq!(result_data["loaded"].as_array().unwrap().len(), 0);
    assert_eq!(result_data["errors"].as_array().unwrap().len(), 1);
    assert_eq!(result_data["errors"][0]["file"], "/models/invalid.onnx");
    assert_eq!(result_data["errors"][0]["error"], "ONNX error: bad data");
}

#[test]
fn autoload_takes_model_files_alone() {
    let mut directory = entry("dir.onnx");
    directory.is_file = false;
    let mut hidden_path = entry("nopath.onnx");
    hidden_path.path = None;
    let mut bad_name = entry("x.onnx");
    bad_name.name = b"\xff.onnx".to_vec();
    let candidates = autoload_candidates(Ok(vec![
        entry("b.onnx"),
        directory,
        entry("readme.txt"),
        hidden_path,
        bad_name,
        entry(".onnx"),
        entry("a.v2.onnx"),
    ]))
    .unwrap();
    let expected = |name: &str, path: &str| Candidate {
        name: name.to_string(),
        path: path.to_string(),
    };
    assert_eq!(
        candidates,
        vec![
            expected("b", "/models/b.onnx"),
            expected("a.v2", "/models/a.v2.onnx")
        ]
    );
}

#[test]
fn test_ffi_null_pointers() {
    let model_name: &[u8] = b"test";
    let path: &[u8] = b"path";
    let message = "Null pointer passed";
    let mut models = registry();

    let mut last = LastError::new();
    assert_eq!(infera_load_model(None, Some(path), &mut last), Err(-1));
    assert!(last.infera_last_error().unwrap().contains(message));
    let mut last = LastError::new();
    assert_eq!(infera_load_model(Some(model_name), None, &mut last), Err(-1));
    assert!(last.infera_last_error().unwrap().contains(message));

    let mut last = LastError::new();
    assert_eq!(infera_unload_model(None, &mut models, &mut last), -1);
    assert!(last.infera_last_error().unwrap().contains(message));

    let mut last = LastError::new();
    assert_eq!(infera_predict(None, true, &models, &mut last), Err(-1));
    assert!(last.infera_last_error().unwrap().contains(message));
    let mut last = LastError::new();
    assert_eq!(infera_predict(Some(model_name), false, &models, &mut last), Err(-1));
    assert!(last.infera_last_error().unwrap().contains(message));

    let blob: [u8; 4] = [0; 4];
    let mut last = LastError::new();
    let result = infera_predict_from_blob(None, Some(&blob), &models, &mut last);
    assert_eq!(result, Err(-1));
    assert!(last.infera_last_error().unwrap().contains(message));
    let mut last = LastError::new();
    let result = infera_predict_from_blob(Some(model_name), None, &models, &mut last);
    assert_eq!(result, Err(-1));
    assert!(last.infera_last_error().unwrap().contains(message));

    let mut last = LastError::new();
    let info_json = infera_get_model_info(None, &models, &mut last).unwrap_err();
    let info_data = parsed(&info_json);
    assert!(info_data["error"].is_string());
    assert!(info_data["error"].as_str().unwrap().contains(message));
    assert!(last.infera_last_error().unwrap().contains(message));

    let mut last = LastError::new();
    let result_json = infera_set_autoload_dir(None, &mut last).unwrap_err();
    let result_data = parsed(&result_json);
    assert!(result_data["error"].is_string());
    assert!(result_data["error"].as_str().unwrap().contains(message));
    assert!(last.infera_last_error().unwrap().contains(message));
}

#[test]
fn test_infera_predict_from_blob_invalid_size() {
    let models = registry();
    let mut last = LastError::new();
    let blob: [u8; 5] = [0; 5];
    let result = infera_predict_from_blob(Some(b"test_model"), Some(&blob), &models, &mut last);
    assert_eq!(result, Err(-1));
    assert!(last
        .infera_last_error()
        .unwrap()
        .contains("Invalid BLOB size: length must be a multiple of 4"));
}

#[test]
fn blob_of_whole_values() {
    let models = registry();
    let mut last = LastError::new();
    let blob: [u8; 8] = [0; 8];
    assert_eq!(
        infera_predict_from_blob(Some(b"test_model"), Some(&blob), &models, &mut last),
        Ok((&7, 2))
    );
    assert_eq!(
        infera_predict_from_blob(Some(b"test_model"), Some(b""), &models, &mut last),
        Ok((&7, 0))
    );
    assert_eq!(last.infera_last_error(), None);
    assert_eq!(
        infera_predict_from_blob(Some(b"other"), Some(&blob), &models, &mut last),
        Err(-1)
    );
    assert_eq!(last.infera_last_error().unwrap(), "Model not found: other");
}

#[test]
fn test_infera_get_model_info_nonexistent_returns_error_json() {
    let models = registry();
    let mut last = LastError::new();
    let info_json =
        infera_get_model_info(Some(b"__missing_model__"), &models, &mut last).unwrap_err();
    let value = parsed(&info_json);
    assert!(
        value.get("error").is_some(),
        "expected error field in JSON: {}",
        info_json
    );
    assert_eq!(
        last.infera_last_error().unwrap(),
        "Model not found: __missing_model__"
    );
}

#[test]
fn model_info_is_handed_out() {
    let mut last = LastError::new();
    let models = registry();
    assert_eq!(infera_get_model_info(Some(b"test_model"), &models, &mut last), Ok(&7));
    let info = finish_model_info(Ok("{\"name\":\"m\"}".to_string()), &mut last);
    assert_eq!(info, "{\"name\":\"m\"}");
    assert_eq!(finish_model_info(Ok("a\0b".to_string()), &mut last), "");
    assert_eq!(last.infera_last_error(), None);
    let error = InferaError::OnnxError("no shape".to_string());
    let info = finish_model_info(Err(error), &mut last);
    assert_eq!(info, "{\"error\":\"ONNX error: no shape\"}");
    assert_eq!(last.infera_last_error().unwrap(), "ONNX error: no shape");
}

#[test]
fn test_infera_get_cache_info_includes_configured_limit() {
    let mut last = LastError::new();
    let text = infera_get_cache_info(&config(), &CacheListing::Missing, &mut last);
    let value = parsed(&text);
    let size_limit = value["size_limit_bytes"]
        .as_u64()
        .expect("size_limit_bytes should be u64");
    assert_eq!(size_limit, config().cache_size_limit);
}

#[test]
fn cache_info_counts_models() {
    let mut last = LastError::new();
    let file = |name: &str, size: u64| CacheEntry {
        name: name.as_bytes().to_vec(),
        is_file: true,
        metadata: Some(CacheMetadata {
            accessed: None,
            observed: 0,
            size,
        }),
    };
    let listing = CacheListing::Entries(vec![
        file("a.onnx", 11),
        file("a.etag", 3),
        file("b.onnx", 31),
    ]);
    let value = parsed(&infera_get_cache_info(&config(), &listing, &mut last));
    assert_eq!(value["cache_dir"], "/tmp/infera_cache");
    assert_eq!(value["total_size_bytes"].as_u64(), Some(42));
    assert_eq!(value["file_count"].as_u64(), Some(2));
    assert_eq!(value["size_limit_bytes"].as_u64(), Some(4096));
    let unreadable = CacheListing::Unreadable("denied".to_string());
    let value = parsed(&infera_get_cache_info(&config(), &unreadable, &mut last));
    assert_eq!(value["error"], "IO error: denied");
    assert_eq!(last.infera_last_error().unwrap(), "IO error: denied");
}

#[test]
fn load_requests() {
    let mut last = LastError::new();
    let mut request = |path: &[u8]| {
        infera_load_model(Some(b"m"), Some(path), &mut last)
            .unwrap()
            .source
    };
    let local = |path: &str| ModelSource::Local(path.to_string());
    let remote = |path: &str| ModelSource::Remote(path.to_string());
    assert_eq!(request(b"http://h/m.onnx"), remote("http://h/m.onnx"));
    assert_eq!(request(b"https://h/m.onnx"), remote("https://h/m.onnx"));
    assert_eq!(request(b"httpd/m.onnx"), local("httpd/m.onnx"));
    assert_eq!(request(b"/models/m.onnx"), local("/models/m.onnx"));
    assert_eq!(request(b""), local(""));
    assert_eq!(
        infera_load_model(Some("m\u{fc}".as_bytes()), Some(b"p"), &mut last),
        Ok(LoadRequest {
            name: "m\u{fc}".to_string(),
            source: local("p")
        })
    );
    assert_eq!(last.infera_last_error(), None);
}

#[test]
fn load_requests_that_are_refused() {
    let message = |name: Option<&[u8]>, path: Option<&[u8]>| {
        let mut last = LastError::new();
        assert_eq!(infera_load_model(name, path, &mut last), Err(-1));
        last.infera_last_error().unwrap()
    };
    assert_eq!(message(Some(b"\xff"), Some(b"p")), "Invalid UTF-8 string");
    assert_eq!(message(Some(b"m"), Some(b"\xc0\x80")), "Invalid UTF-8 string");
    assert_eq!(message(Some(b"\xff"), None), "Null pointer passed");
}

#[test]
fn autoload_directories() {
    let mut last = LastError::new();
    assert_eq!(
        infera_set_autoload_dir(Some(b"/models"), &mut last),
        Ok("/models".to_string())
    );
    assert_eq!(last.infera_last_error(), None);
    let refused = infera_set_autoload_dir(Some(b"\xfe"), &mut last).unwrap_err();
    assert_eq!(refused, "{\"error\":\"Invalid UTF-8 string\"}");
}

#[test]
fn paths_of_fetched_models() {
    assert_eq!(fetched_path(Ok(Some("p".to_string()))), Ok("p".to_string()));
    assert_eq!(fetched_path(Ok(None)), Err(InferaError::Utf8Error));
    assert_eq!(
        fetched_path(Err(InferaError::NullPointer)),
        Err(InferaError::NullPointer)
    );
}

#[test]
fn loading_and_unloading() {
    let mut models: ModelRegistry<u32> = ModelRegistry::new();
    let mut last = LastError::new();
    assert_eq!(infera_get_loaded_models(&models), "[]");
    assert_eq!(finish_load(Ok(("a".to_string(), 1)), &mut models, &mut last), 0);
    assert_eq!(finish_load(Ok(("b\"".to_string(), 2)), &mut models, &mut last), 0);
    assert_eq!(finish_load(Ok(("a".to_string(), 3)), &mut models, &mut last), 0);
    assert_eq!(infera_get_loaded_models(&models), "[\"a\",\"b\\\"\"]");
    assert_eq!(infera_predict(Some(b"a"), true, &models, &mut last), Ok(&3));
    assert_eq!(last.infera_last_error(), None);

    let error = InferaError::OnnxError("bad".to_string());
    assert_eq!(finish_load(Err(error), &mut models, &mut last), -1);
    assert_eq!(last.infera_last_error().unwrap(), "ONNX error: bad");
    assert_eq!(infera_unload_model(Some(b"a"), &mut models, &mut last), 0);
    assert_eq!(last.infera_last_error().unwrap(), "ONNX error: bad");
    assert_eq!(infera_get_loaded_models(&models), "[\"b\\\"\"]");
    assert_eq!(infera_unload_model(Some(b"a"), &mut models, &mut last), -1);
    assert_eq!(last.infera_last_error().unwrap(), "Model not found: a");
    assert_eq!(
        find_model(Some(b"a"), &models),
        Err(InferaError::ModelNotFound("a".to_string()))
    );
    assert_eq!(find_model(Some(b"b\""), &models), Ok(&2));
    assert_eq!(models.remove("nothing"), None);
}

#[test]
fn names_with_nul_are_escaped() {
    let mut models: ModelRegistry<u32> = ModelRegistry::new();
    models.insert("a\0b", 1);
    let text = infera_get_loaded_models(&models);
    assert_eq!(text, "[\"a\\u0000b\"]");
}

#[test]
fn clearing_answers_with_a_status() {
    let mut last = LastError::new();
    assert_eq!(finish_status(Ok(()), &mut last), 0);
    assert_eq!(infera_clear_cache(Ok(()), &mut last), 0);
    let error = InferaError::IoError("busy".to_string());
    assert_eq!(infera_clear_cache(Err(error), &mut last), -1);
    assert_eq!(last.infera_last_error().unwrap(), "IO error: busy");
}

#[test]
fn messages() {
    let text = "x".to_string();
    assert_eq!(InferaError::NullPointer.message(), "Null pointer passed");
    assert_eq!(InferaError::Utf8Error.message(), "Invalid UTF-8 string");
    assert_eq!(
        InferaError::CacheDirError(text.clone()).message(),
        "Failed to create cache directory: x"
    );
    assert_eq!(
        InferaError::HttpRequestError(text.clone()).message(),
        "HTTP request failed: x"
    );
    assert_eq!(
        InferaError::InvalidInputShape(text).message(),
        "Invalid input shape: x"
    );
}

#[test]
fn small_text_operations() {
    assert_eq!(trim("  a b \n"), "a b");
    assert_eq!(trim("\u{3000}\u{2028}"), "");
    assert_eq!(trim(""), "");
    assert_eq!(trim("x"), "x");
    assert!(starts_with("http://x", "http://"));
    assert!(!starts_with("http:/", "http://"));
    assert!(starts_with("", ""));
    assert_eq!(c_text("ok".to_string()), "ok");
    assert_eq!(c_text("\0".to_string()), "");
    assert_eq!(text_argument(Some(b"\xe2\x82\xac")), Ok("\u{20ac}".to_string()));
    assert_eq!(text_argument(Some(b"\xed\xa0\x80")), Err(InferaError::Utf8Error));
}

#[test]
fn models_told_to_be_loaded_are_loaded() {
    let mut last = LastError::new();
    let mut models = ModelRegistry::new();
    models.insert("kept", 1);
    models.insert("a", 2);
    models.insert("b", 3);
    let listing = vec![entry("a.onnx"), entry("b.onnx"), entry("c.onnx")];
    let mut attempts = Vec::new();
    for candidate in autoload_candidates(Ok(listing)).unwrap() {
        let made = match candidate.name.as_str() {
            "a" => Ok(10),
            "b" => Err(InferaError::OnnxError("bad data".to_string())),
            _ => Ok(30),
        };
        attempts.push(note_load(candidate, made, &mut models));
    }
    assert_eq!(models.find("kept"), Ok(&1));
    assert_eq!(models.find("a"), Ok(&10));
    assert_eq!(models.find("b"), Ok(&3));
    assert_eq!(models.find("c"), Ok(&30));
    assert_eq!(
        infera_get_loaded_models(&models),
        "[\"kept\",\"a\",\"b\",\"c\"]"
    );
    let report = parsed(&finish_autoload(Ok(attempts), &mut last));
    assert_eq!(report["loaded"].as_array().unwrap().len(), 2);
    assert_eq!(report["loaded"][0], "a");
    assert_eq!(report["loaded"][1], "c");
    assert_eq!(report["errors"].as_array().unwrap().len(), 1);
    assert_eq!(report["errors"][0]["file"], "/models/b.onnx");
}
