# infera

The logic of an inference extension, verified with Verus: loading ONNX models
from local files and remote URLs, keeping the remote ones in a cache on disk,
and answering calls with status codes and JSON text.

- `src/` is the library. It performs no I/O: what the file system, the server and
  the inference backend answer comes in as plain values, and what is to be done
  next goes out as plain values.
  - `api.rs`: the calls, from their arguments to their answers.
  - `remote.rs`: getting a remote model, with retries; `fetch_laws.rs` states what
    holds of every such run.
  - `download.rs`, `temp_file.rs`: one conditional download and its temporary file.
  - `cache.rs`, `eviction.rs`, `clear.rs`, `cache_key.rs`: the cache, its order and
    size, making room in it, clearing it, and the names of its files.
  - `autoload.rs`, `registry.rs`: loading a directory of models; the loaded models.
  - `json.rs`, `text.rs`, `file_name.rs`, `error.rs`, `config.rs`: answers, texts,
    file names, errors and settings.
- `app/` is the C interface, with the file and network operations. The program
  that embeds it installs the inference backend.
- `tests/` runs the library.
