//! Loading every model of a directory.

use crate::error::{ErrorView, InferaError};
use crate::file_name;
use crate::json::{self, JsonTree};
use crate::registry::ModelRegistry;
use crate::text;
use serde_json::Value;
use vstd::prelude::*;

verus! {

/// An entry of the directory.
#[derive(Debug)]
pub struct AutoloadEntry {
    /// The name of the entry, in the platform's encoding.
    pub name: Vec<u8>,
    /// Whether the entry is a file.
    pub is_file: bool,
    /// The path of the entry, where it is valid UTF-8.
    pub path: Option<String>,
}

/// A model to load.
#[derive(Debug, PartialEq, Eq)]
pub struct Candidate {
    /// The name to load it under: that of its file, without the extension.
    pub name: String,
    /// The path of its file.
    pub path: String,
}

/// A model that was to be loaded.
#[derive(Debug, PartialEq, Eq)]
pub struct Attempt {
    /// The model.
    pub candidate: Candidate,
    /// What came of loading it.
    pub result: Result<(), InferaError>,
}

/// The name and the path of a model to load.
pub type CandidateView = (Seq<char>, Seq<char>);

impl View for Candidate {
    type V = CandidateView;

    open spec fn view(&self) -> CandidateView {
        (self.name@, self.path@)
    }
}

/// The model that an entry is, if it is one: a file with the extension `onnx`
/// whose name and path are valid UTF-8.
pub open spec fn candidate(e: AutoloadEntry) -> Option<CandidateView> {
    match e.path {
        Some(path) if e.is_file && file_name::extension(e.name@) == Some(file_name::onnx())
            && vstd::utf8::valid_utf8(file_name::stem(e.name@)) => Some(
            (vstd::utf8::decode_utf8(file_name::stem(e.name@)), path@),
        ),
        _ => None,
    }
}

/// The models that the entries are, in the order of the entries.
pub open spec fn candidates(entries: Seq<AutoloadEntry>) -> Seq<CandidateView>
    decreases entries.len(),
{
    if entries.len() == 0 {
        Seq::empty()
    } else {
        match candidate(entries.last()) {
            Some(c) => candidates(entries.drop_last()).push(c),
            None => candidates(entries.drop_last()),
        }
    }
}

/// The model that an entry is, if it is one.
fn entry_candidate(e: &AutoloadEntry) -> (r: Option<Candidate>)
    ensures
        r is Some <==> candidate(*e) is Some,
        r matches Some(c) ==> candidate(*e) == Some(c@),
{
    if !e.is_file || !file_name::has_onnx_extension(e.name.as_slice()) {
        return None;
    }
    match text::utf8_text(file_name::file_stem(e.name.as_slice())) {
        None => None,
        Some(name) => match &e.path {
            None => None,
            Some(path) => Some(Candidate { name, path: path.clone() }),
        },
    }
}

/// The models to load, given the entries of the directory or the reason why it
/// could not be read.
pub fn autoload_candidates(listing: Result<Vec<AutoloadEntry>, String>) -> (r: Result<
    Vec<Candidate>,
    InferaError,
>)
    ensures
        listing matches Ok(entries) ==> r is Ok && r->Ok_0@.map_values(|c: Candidate| c@)
            == candidates(entries@),
        listing matches Err(reason) ==> r is Err && r->Err_0@ == ErrorView::IoError(reason@),
{
    match listing {
        Err(reason) => Err(InferaError::IoError(reason)),
        Ok(entries) => {
            let mut found: Vec<Candidate> = Vec::new();
            let mut i: usize = 0;
            assert(found@.map_values(|c: Candidate| c@) =~= candidates(entries@.take(0)));
            while i < entries.len()
                invariant
                    i <= entries@.len(),
                    found@.map_values(|c: Candidate| c@) == candidates(entries@.take(i as int)),
                decreases entries@.len() - i,
            {
                assert(entries@.take(i + 1).drop_last() == entries@.take(i as int));
                assert(entries@.take(i + 1).last() == entries@[i as int]);
                if let Some(c) = entry_candidate(&entries[i]) {
                    let ghost before = found@;
                    found.push(c);
                    assert(found@.map_values(|c: Candidate| c@) =~= before.map_values(
                        |c: Candidate| c@,
                    ).push(c@));
                }
                i = i + 1;
            }
            assert(entries@.take(i as int) == entries@);
            Ok(found)
        },
    }
}

/// Takes note of what the backend made of a model's file: a model is now loaded
/// under its name, and an error is kept.
pub fn note_load<M>(
    candidate: Candidate,
    made: Result<M, InferaError>,
    models: &mut ModelRegistry<M>,
) -> (r: Attempt)
    requires
        old(models).wf(),
    ensures
        final(models).wf(),
        r.candidate@ == candidate@,
        made matches Ok(model) ==> {
            &&& r.result is Ok
            &&& final(models)@ == old(models)@.insert(candidate.name@, model)
            &&& final(models).names() == if old(models)@.contains_key(candidate.name@) {
                old(models).names()
            } else {
                old(models).names().push(candidate.name@)
            }
        },
        made matches Err(error) ==> {
            &&& r.result is Err
            &&& r.result->Err_0@ == error@
            &&& final(models)@ == old(models)@
            &&& final(models).names() == old(models).names()
        },
{
    match made {
        Ok(model) => {
            models.insert(candidate.name.as_str(), model);
            Attempt { candidate, result: Ok(()) }
        },
        Err(error) => Attempt { candidate, result: Err(error) },
    }
}

/// The attempts tell what the backend made of each model's file.
pub open spec fn tell_of<M>(attempts: Seq<Attempt>, made: Seq<Result<M, InferaError>>) -> bool {
    &&& attempts.len() == made.len()
    &&& forall|i: int|
        0 <= i < attempts.len() ==> match #[trigger] made[i] {
            Ok(_) => attempts[i].result is Ok,
            Err(error) => attempts[i].result is Err && attempts[i].result->Err_0@ == error@,
        }
}

/// The loaded models once each attempt was taken note of.
pub open spec fn models_after<M>(
    models: Map<Seq<char>, M>,
    attempts: Seq<Attempt>,
    made: Seq<Result<M, InferaError>>,
) -> Map<Seq<char>, M>
    decreases made.len(),
{
    if made.len() == 0 {
        models
    } else {
        let before = models_after(models, attempts.drop_last(), made.drop_last());
        match made.last() {
            Ok(model) => before.insert(attempts.last().candidate.name@, model),
            Err(_) => before,
        }
    }
}

/// The names of the models that were loaded, in order.
pub open spec fn loaded(attempts: Seq<Attempt>) -> Seq<Seq<char>>
    decreases attempts.len(),
{
    if attempts.len() == 0 {
        Seq::empty()
    } else if attempts.last().result is Ok {
        loaded(attempts.drop_last()).push(attempts.last().candidate.name@)
    } else {
        loaded(attempts.drop_last())
    }
}

/// The object that tells why the model at a path was not loaded.
pub open spec fn failure_tree(path: Seq<char>, error: ErrorView) -> JsonTree {
    JsonTree::Object(
        Map::empty().insert("file"@, JsonTree::Text(path)).insert(
            "error"@,
            JsonTree::Text(error.message()),
        ),
    )
}

/// What is told of the models that were not loaded, in order.
pub open spec fn failures(attempts: Seq<Attempt>) -> Seq<JsonTree>
    decreases attempts.len(),
{
    if attempts.len() == 0 {
        Seq::empty()
    } else {
        match attempts.last().result {
            Ok(_) => failures(attempts.drop_last()),
            Err(error) => failures(attempts.drop_last()).push(
                failure_tree(attempts.last().candidate.path@, error@),
            ),
        }
    }
}

/// The object that tells which models were loaded and which were not.
pub open spec fn report_tree(attempts: Seq<Attempt>) -> JsonTree {
    JsonTree::Object(
        Map::empty().insert("loaded"@, json::text_list(loaded(attempts))).insert(
            "errors"@,
            JsonTree::List(failures(attempts)),
        ),
    )
}

/// The object that tells why the model at a path was not loaded.
fn failure_value(path: &str, error: &InferaError) -> (r: Value)
    ensures
        json::value_tree(r) == failure_tree(path@, error@),
{
    let message: String = error.message();
    let mut fields: Vec<(String, Value)> = Vec::new();
    proof {
        reveal_strlit("file");
        reveal_strlit("error");
        assert("file"@.len() < "error"@.len());
    }
    json::add_field(&mut fields, "file", json::text_value(path));
    json::add_field(&mut fields, "error", json::text_value(message.as_str()));
    json::object_value(fields)
}

/// The object that tells which models were loaded and which were not, as text.
pub fn autoload_report(attempts: &Vec<Attempt>) -> (r: String)
    ensures
        r@ == json::json_text(report_tree(attempts@)),
        !r@.contains('\0'),
{
    let mut names: Vec<String> = Vec::new();
    let mut errors: Vec<Value> = Vec::new();
    let mut i: usize = 0;
    assert(json::texts_of(names@) =~= loaded(attempts@.take(0)));
    assert(json::trees(errors@) =~= failures(attempts@.take(0)));
    while i < attempts.len()
        invariant
            i <= attempts@.len(),
            json::texts_of(names@) == loaded(attempts@.take(i as int)),
            json::trees(errors@) == failures(attempts@.take(i as int)),
        decreases attempts@.len() - i,
    {
        assert(attempts@.take(i + 1).drop_last() == attempts@.take(i as int));
        assert(attempts@.take(i + 1).last() == attempts@[i as int]);
        let attempt: &Attempt = &attempts[i];
        match &attempt.result {
            Ok(_) => {
                let ghost before = names@;
                names.push(attempt.candidate.name.clone());
                assert(json::texts_of(names@) =~= json::texts_of(before).push(
                    attempt.candidate.name@,
                ));
            },
            Err(error) => {
                let ghost before = errors@;
                let failure: Value = failure_value(attempt.candidate.path.as_str(), error);
                errors.push(failure);
                assert(json::trees(errors@) =~= json::trees(before).push(json::value_tree(failure)));
            },
        }
        i = i + 1;
    }
    assert(attempts@.take(i as int) == attempts@);
    let mut fields: Vec<(String, Value)> = Vec::new();
    proof {
        reveal_strlit("loaded");
        reveal_strlit("errors");
        assert("loaded"@[0] != "errors"@[0]);
    }
    json::add_field(&mut fields, "loaded", json::text_list_value(&names));
    json::add_field(&mut fields, "errors", json::list_value(errors));
    json::value_reply(&json::object_value(fields))
}

/// Every model that was to be loaded is told of once: as loaded or as failed.
pub proof fn law_autoload_tells_of_every_model(attempts: Seq<Attempt>)
    ensures
        loaded(attempts).len() + failures(attempts).len() == attempts.len(),
        forall|i: int|
            0 <= i < attempts.len() && (#[trigger] attempts[i]).result is Ok ==> loaded(
                attempts,
            ).contains(attempts[i].candidate.name@),
        forall|i: int|
            0 <= i < attempts.len() && (#[trigger] attempts[i]).result is Err ==> failures(
                attempts,
            ).contains(failure_tree(attempts[i].candidate.path@, attempts[i].result->Err_0@)),
    decreases attempts.len(),
{
    if attempts.len() > 0 {
        let before = attempts.drop_last();
        let last = attempts.last();
        law_autoload_tells_of_every_model(before);
        assert forall|i: int| 0 <= i < attempts.len() && (#[trigger] attempts[i]).result is Ok implies loaded(
            attempts,
        ).contains(attempts[i].candidate.name@) by {
            if i == attempts.len() - 1 {
                assert(loaded(attempts)[loaded(before).len() as int] == last.candidate.name@);
            } else {
                assert(before[i] == attempts[i]);
                let k = choose|k: int|
                    0 <= k < loaded(before).len() && loaded(before)[k] == attempts[i].candidate.name@;
                assert(loaded(attempts)[k] == loaded(before)[k]);
            }
        }
        assert forall|i: int| 0 <= i < attempts.len() && (#[trigger] attempts[i]).result is Err implies failures(
            attempts,
        ).contains(failure_tree(attempts[i].candidate.path@, attempts[i].result->Err_0@)) by {
            let tree = failure_tree(attempts[i].candidate.path@, attempts[i].result->Err_0@);
            if i == attempts.len() - 1 {
                assert(failures(attempts)[failures(before).len() as int] == tree);
            } else {
                assert(before[i] == attempts[i]);
                let k = choose|k: int| 0 <= k < failures(before).len() && failures(before)[k] == tree;
                assert(failures(attempts)[k] == failures(before)[k]);
            }
        }
    }
}

/// The models that are loaded after autoloading are those that were before and
/// those that are told to be loaded, and no others. A name that is not told to be
/// loaded stands for what it stood for. One that is stands for the model that was
/// made for it, the latest where there is more than one.
pub proof fn law_models_told_to_be_loaded_are_loaded<M>(
    models: Map<Seq<char>, M>,
    attempts: Seq<Attempt>,
    made: Seq<Result<M, InferaError>>,
)
    requires
        tell_of(attempts, made),
    ensures
        forall|name: Seq<char>| #[trigger]
            models_after(models, attempts, made).contains_key(name) <==> models.contains_key(name)
                || loaded(attempts).contains(name),
        forall|name: Seq<char>|
            models.contains_key(name) && !loaded(attempts).contains(name) ==> #[trigger] models_after(
                models,
                attempts,
                made,
            )[name] == models[name],
        forall|i: int|
            0 <= i < made.len() && (#[trigger] made[i]) is Ok && (forall|j: int|
                i < j < made.len() && (#[trigger] made[j]) is Ok ==> attempts[j].candidate.name@
                    != attempts[i].candidate.name@) ==> models_after(
                models,
                attempts,
                made,
            )[attempts[i].candidate.name@] == made[i]->Ok_0,
    decreases made.len(),
{
    if made.len() > 0 {
        let attempts1 = attempts.drop_last();
        let made1 = made.drop_last();
        let n = made.len() - 1;
        let last = attempts.last().candidate.name@;
        let before = models_after(models, attempts1, made1);
        let after = models_after(models, attempts, made);
        assert forall|i: int| 0 <= i < attempts1.len() implies match #[trigger] made1[i] {
            Ok(_) => attempts1[i].result is Ok,
            Err(error) => attempts1[i].result is Err && attempts1[i].result->Err_0@ == error@,
        } by {
            assert(made1[i] == made[i]);
            assert(attempts1[i] == attempts[i]);
        }
        law_models_told_to_be_loaded_are_loaded(models, attempts1, made1);
        assert(made[n] == made.last());
        assert forall|name: Seq<char>| #[trigger] loaded(attempts).contains(name) <==> loaded(
            attempts1,
        ).contains(name) || (made[n] is Ok && name == last) by {
            if made[n] is Ok {
                let l = loaded(attempts1);
                assert(l.push(last)[l.len() as int] == last);
                if l.contains(name) {
                    let k = choose|k: int| 0 <= k < l.len() && l[k] == name;
                    assert(l.push(last)[k] == name);
                }
            }
        }
        assert forall|name: Seq<char>| #[trigger] after.contains_key(name) <==> models.contains_key(
            name,
        ) || loaded(attempts).contains(name) by {
            assert(before.contains_key(name) <==> models.contains_key(name) || loaded(
                attempts1,
            ).contains(name));
            assert(loaded(attempts).contains(name) <==> loaded(attempts1).contains(name) || (made[n] is Ok
                && name == last));
        }
        assert forall|i: int|
            0 <= i < made.len() && (#[trigger] made[i]) is Ok && (forall|j: int|
                i < j < made.len() && (#[trigger] made[j]) is Ok ==> attempts[j].candidate.name@
                    != attempts[i].candidate.name@) implies after[attempts[i].candidate.name@]
            == made[i]->Ok_0 by {
            if i < n {
                assert(made1[i] == made[i]);
                assert forall|j: int| i < j < made1.len() && (#[trigger] made1[j]) is Ok implies attempts1[j].candidate.name@
                    != attempts1[i].candidate.name@ by {
                    assert(made1[j] == made[j]);
                }
                assert(before[attempts1[i].candidate.name@] == made1[i]->Ok_0);
                if made[n] is Ok {
                    assert(last != attempts[i].candidate.name@);
                }
            }
        }
    }
}

/// Every model of the directory is to be loaded, and nothing else is.
pub proof fn law_every_model_of_the_directory_is_loaded(entries: Seq<AutoloadEntry>)
    ensures
        forall|i: int|
            0 <= i < entries.len() && candidate(#[trigger] entries[i]) is Some ==> candidates(
                entries,
            ).contains(candidate(entries[i])->0),
        forall|k: int|
            0 <= k < candidates(entries).len() ==> exists|i: int|
                0 <= i < entries.len() && candidate(#[trigger] entries[i]) == Some(
                    #[trigger] candidates(entries)[k],
                ),
    decreases entries.len(),
{
    if entries.len() > 0 {
        let before = entries.drop_last();
        law_every_model_of_the_directory_is_loaded(before);
        assert forall|i: int| 0 <= i < entries.len() && candidate(#[trigger] entries[i]) is Some implies candidates(
            entries,
        ).contains(candidate(entries[i])->0) by {
            if i == entries.len() - 1 {
                assert(candidates(entries)[candidates(before).len() as int] == candidate(entries[i])->0);
            } else {
                assert(before[i] == entries[i]);
                let k = choose|k: int|
                    0 <= k < candidates(before).len() && candidates(before)[k] == candidate(
                        entries[i],
                    )->0;
                assert(candidates(entries)[k] == candidates(before)[k]);
            }
        }
        assert forall|k: int| 0 <= k < candidates(entries).len() implies exists|i: int|
            0 <= i < entries.len() && candidate(#[trigger] entries[i]) == Some(
                #[trigger] candidates(entries)[k],
            ) by {
            if k < candidates(before).len() {
                assert(candidates(entries)[k] == candidates(before)[k]);
                let i = choose|i: int|
                    0 <= i < before.len() && candidate(#[trigger] before[i]) == Some(
                        candidates(before)[k],
                    );
                assert(entries[i] == before[i]);
            } else {
                assert(candidate(entries[entries.len() - 1]) == Some(candidates(entries)[k]));
            }
        }
    }
}

/// A file whose name is a text followed by `.onnx`, and whose path is known, is a
/// model to load. Its name is that text, whole.
pub proof fn law_models_are_named_by_their_files(e: AutoloadEntry, name: Seq<char>)
    requires
        e.is_file,
        e.path is Some,
        name.len() > 0,
        e.name@ == vstd::utf8::encode_utf8(name) + seq![
            '.' as u8,
            'o' as u8,
            'n' as u8,
            'n' as u8,
            'x' as u8,
        ],
    ensures
        candidate(e) == Some((name, e.path->0@)),
{
    let bytes = vstd::utf8::encode_utf8(name);
    vstd::utf8::encode_utf8_valid_utf8(name);
    vstd::utf8::encode_utf8_decode_utf8(name);
    assert(bytes.len() > 0);
    assert(e.name@.skip(e.name@.len() - 5) =~= file_name::model_suffix());
    assert(e.name@.take(e.name@.len() - 5) =~= bytes);
    file_name::law_models_end_with_onnx(e.name@);
}

/// What is to be loaded is a file with a known path, under a name that is not
/// empty. The name followed by `.onnx` is the name of the file.
pub proof fn law_files_are_named_by_their_models(
    e: AutoloadEntry,
    name: Seq<char>,
    path: Seq<char>,
)
    requires
        candidate(e) == Some((name, path)),
    ensures
        e.is_file,
        e.path is Some,
        path == e.path->0@,
        name.len() > 0,
        vstd::utf8::encode_utf8(name) + seq![
            '.' as u8,
            'o' as u8,
            'n' as u8,
            'n' as u8,
            'x' as u8,
        ] == e.name@,
{
    let stem = file_name::stem(e.name@);
    file_name::law_models_end_with_onnx(e.name@);
    vstd::utf8::decode_utf8_encode_utf8(stem);
    assert(stem.len() > 0);
    assert(stem + file_name::model_suffix() == e.name@);
    if name.len() == 0 {
        assert(vstd::utf8::encode_utf8(name).len() == 0);
    }
}

/// Files with different names are loaded under different names: none takes the
/// place of another.
pub proof fn law_different_files_have_different_names(
    e1: AutoloadEntry,
    c1: CandidateView,
    e2: AutoloadEntry,
    c2: CandidateView,
)
    requires
        candidate(e1) == Some(c1),
        candidate(e2) == Some(c2),
        e1.name@ != e2.name@,
    ensures
        c1.0 != c2.0,
{
    law_files_are_named_by_their_models(e1, c1.0, c1.1);
    law_files_are_named_by_their_models(e2, c2.0, c2.1);
}

/// The models of two lists of entries are those of the first and then those of the
/// second. One entry is at most one model.
pub proof fn law_candidates_come_in_order(
    a: Seq<AutoloadEntry>,
    b: Seq<AutoloadEntry>,
    e: AutoloadEntry,
)
    ensures
        candidates(a + b) == candidates(a) + candidates(b),
        candidates(seq![e]) == match candidate(e) {
            Some(c) => seq![c],
            None => Seq::empty(),
        },
        candidates(Seq::empty()) == Seq::<CandidateView>::empty(),
    decreases b.len(),
{
    reveal_with_fuel(candidates, 2);
    assert(seq![e].drop_last() =~= Seq::<AutoloadEntry>::empty());
    assert(seq![e].last() == e);
    if b.len() == 0 {
        assert(a + b =~= a);
    } else {
        law_candidates_come_in_order(a, b.drop_last(), e);
        assert((a + b).drop_last() =~= a + b.drop_last());
        assert((a + b).last() == b.last());
    }
}

/// What is told of two lists of attempts is what is told of the first and then
/// what is told of the second. A model that was loaded is told by its name, and
/// one that was not by the path of its file and the error.
pub proof fn law_attempts_are_told_in_order(a: Seq<Attempt>, b: Seq<Attempt>, one: Attempt)
    ensures
        loaded(a + b) == loaded(a) + loaded(b),
        failures(a + b) == failures(a) + failures(b),
        one.result is Ok ==> loaded(seq![one]) == seq![one.candidate.name@] && failures(seq![one])
            == Seq::<JsonTree>::empty(),
        one.result matches Err(error) ==> {
            &&& loaded(seq![one]) == Seq::<Seq<char>>::empty()
            &&& failures(seq![one]) == seq![failure_tree(one.candidate.path@, error@)]
        },
        loaded(Seq::empty()) == Seq::<Seq<char>>::empty(),
        failures(Seq::empty()) == Seq::<JsonTree>::empty(),
    decreases b.len(),
{
    reveal_with_fuel(loaded, 2);
    reveal_with_fuel(failures, 2);
    assert(seq![one].drop_last() =~= Seq::<Attempt>::empty());
    assert(seq![one].last() == one);
    if b.len() == 0 {
        assert(a + b =~= a);
    } else {
        law_attempts_are_told_in_order(a, b.drop_last(), one);
        assert((a + b).drop_last() =~= a + b.drop_last());
        assert((a + b).last() == b.last());
    }
}

/// The report is an object with two keys. Under `loaded` stand the names of the
/// models that were loaded, and under `errors` one object for each that was not,
/// with the path of its file and the message of its error.
pub proof fn law_report_has_two_keys(attempts: Seq<Attempt>, path: Seq<char>, error: ErrorView)
    ensures
        report_tree(attempts) matches JsonTree::Object(fields) && {
            &&& fields.dom() == set!["loaded"@, "errors"@]
            &&& fields["loaded"@] matches JsonTree::List(names)
            &&& names.len() == loaded(attempts).len()
            &&& forall|i: int|
                0 <= i < names.len() ==> #[trigger] names[i] == JsonTree::Text(loaded(attempts)[i])
            &&& fields["errors"@] == JsonTree::List(failures(attempts))
        },
        failure_tree(path, error) matches JsonTree::Object(fields) && {
            &&& fields.dom() == set!["file"@, "error"@]
            &&& fields["file"@] == JsonTree::Text(path)
            &&& fields["error"@] == JsonTree::Text(error.message())
        },
{
    reveal_strlit("loaded");
    reveal_strlit("errors");
    reveal_strlit("file");
    reveal_strlit("error");
    assert("loaded"@[0] != "errors"@[0]);
    assert("file"@.len() < "error"@.len());
    assert(report_tree(attempts)->Object_0.dom() =~= set!["loaded"@, "errors"@]);
    assert(failure_tree(path, error)->Object_0.dom() =~= set!["file"@, "error"@]);
}

/// A model to load is seen as its name and its path.
pub proof fn law_candidates_are_seen_as_they_are(candidate: Candidate)
    ensures
        candidate@.0 == candidate.name@,
        candidate@.1 == candidate.path@,
{
}

} // verus!
