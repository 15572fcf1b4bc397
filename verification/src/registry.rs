//! The models that are loaded, by their names.

use crate::error::{ErrorView, InferaError};
use vstd::prelude::*;

verus! {

/// The models that are loaded, by their names. A name stands for one model.
#[derive(Debug)]
pub struct ModelRegistry<M> {
    names: Vec<String>,
    models: Vec<M>,
}

impl<M> View for ModelRegistry<M> {
    type V = Map<Seq<char>, M>;

    closed spec fn view(&self) -> Map<Seq<char>, M> {
        Map::new(
            |name: Seq<char>| self.names().contains(name),
            |name: Seq<char>| self.models@[self.names().index_of(name)],
        )
    }
}

impl<M> ModelRegistry<M> {
    /// The names of the models, in the order in which they were first loaded.
    pub closed spec fn names(&self) -> Seq<Seq<char>> {
        self.names@.map_values(|name: String| name@)
    }

    /// No name stands twice.
    pub closed spec fn wf(&self) -> bool {
        self.names@.len() == self.models@.len() && self.names().no_duplicates()
    }

    /// The names are those of the models, each once.
    pub proof fn law_names_are_those_of_the_models(&self)
        requires
            self.wf(),
        ensures
            self.names().no_duplicates(),
            forall|name: Seq<char>| self.names().contains(name) <==> self@.contains_key(name),
    {
    }

    /// No model is loaded.
    pub fn new() -> (r: ModelRegistry<M>)
        ensures
            r.wf(),
            r@ == Map::<Seq<char>, M>::empty(),
            r.names() == Seq::<Seq<char>>::empty(),
    {
        let r: ModelRegistry<M> = ModelRegistry { names: Vec::new(), models: Vec::new() };
        assert(r.names() =~= Seq::<Seq<char>>::empty());
        assert(r@ =~= Map::<Seq<char>, M>::empty());
        r
    }

    /// Where the name stands.
    fn position(&self, name: &str) -> (r: Option<usize>)
        requires
            self.wf(),
        ensures
            r is Some <==> self@.contains_key(name@),
            r matches Some(at) ==> {
                &&& at < self.names@.len()
                &&& self.names()[at as int] == name@
                &&& self.names().index_of(name@) == at
            },
    {
        let wanted: String = name.to_owned();
        let mut i: usize = 0;
        while i < self.names.len()
            invariant
                i <= self.names@.len(),
                wanted@ == name@,
                self.wf(),
                forall|j: int| 0 <= j < i ==> self.names()[j] != name@,
            decreases self.names@.len() - i,
        {
            if self.names[i] == wanted {
                assert(self.names()[i as int] == name@);
                assert(self.names().contains(name@));
                return Some(i);
            }
            i = i + 1;
        }
        None
    }

    /// The model with the name.
    pub fn find(&self, name: &str) -> (r: Result<&M, InferaError>)
        requires
            self.wf(),
        ensures
            self@.contains_key(name@) ==> r is Ok && *r->Ok_0 == self@[name@],
            !self@.contains_key(name@) ==> r is Err && r->Err_0@ == ErrorView::ModelNotFound(name@),
    {
        match self.position(name) {
            Some(at) => Ok(&self.models[at]),
            None => Err(InferaError::ModelNotFound(name.to_owned())),
        }
    }

    /// Loads a model under a name, in the place of the one that had the name.
    pub fn insert(&mut self, name: &str, model: M)
        requires
            old(self).wf(),
        ensures
            final(self).wf(),
            final(self)@ == old(self)@.insert(name@, model),
            final(self).names() == if old(self)@.contains_key(name@) {
                old(self).names()
            } else {
                old(self).names().push(name@)
            },
    {
        match self.position(name) {
            Some(at) => {
                self.models.set(at, model);
                proof {
                    assert(self.names() == old(self).names());
                    assert forall|other: Seq<char>| self.names().contains(other) && other != name@
                        implies self.names().index_of(other) != at by {}
                    assert(self@ =~= old(self)@.insert(name@, model));
                }
            },
            None => {
                self.names.push(name.to_owned());
                self.models.push(model);
                proof {
                    let before = old(self).names();
                    let after = self.names();
                    assert(after =~= before.push(name@));
                    assert(after[before.len() as int] == name@);
                    assert forall|other: Seq<char>| before.contains(other) implies after.contains(other)
                        && after.index_of(other) == before.index_of(other) by {
                        let i = before.index_of(other);
                        assert(after[i] == other);
                    }
                    assert(self@ =~= old(self)@.insert(name@, model));
                }
            },
        }
    }

    /// Unloads the model with the name and hands it out, if there is one.
    pub fn remove(&mut self, name: &str) -> (r: Option<M>)
        requires
            old(self).wf(),
        ensures
            final(self).wf(),
            final(self)@ == old(self)@.remove(name@),
            old(self)@.contains_key(name@) ==> {
                &&& r == Some(old(self)@[name@])
                &&& final(self).names() == old(self).names().remove(
                    old(self).names().index_of(name@),
                )
            },
            !old(self)@.contains_key(name@) ==> r is None && final(self).names()
                == old(self).names(),
    {
        match self.position(name) {
            Some(at) => {
                self.names.remove(at);
                let model: M = self.models.remove(at);
                proof {
                    let before = old(self).names();
                    let after = self.names();
                    assert(after =~= before.remove(at as int));
                    assert forall|other: Seq<char>| before.contains(other) && other != name@ implies {
                        &&& #[trigger] after.contains(other)
                        &&& self.models@[after.index_of(other)] == old(self).models@[before.index_of(
                            other,
                        )]
                    } by {
                        let i = before.index_of(other);
                        let j = if i < at {
                            i
                        } else {
                            i - 1
                        };
                        assert(after[j] == other);
                        assert(after.index_of(other) == j);
                    }
                    assert forall|other: Seq<char>| #[trigger] after.contains(other) implies before.contains(
                        other,
                    ) && other != name@ by {
                        let j = after.index_of(other);
                        let i = if j < at {
                            j
                        } else {
                            j + 1
                        };
                        assert(before[i] == other);
                    }
                    assert(self@ =~= old(self)@.remove(name@));
                }
                Some(model)
            },
            None => {
                assert(self@ =~= old(self)@.remove(name@));
                None
            },
        }
    }

    /// The names of the models.
    pub fn loaded_names(&self) -> (r: &Vec<String>)
        ensures
            r@.map_values(|name: String| name@) == self.names(),
    {
        &self.names
    }
}

} // verus!
