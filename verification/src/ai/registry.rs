//! Language models by their names. The first is the default.

use vstd::prelude::*;
use crate::ai::model::LanguageModel;
use crate::registry::Entries;

pub use crate::provider::registry::ProviderRegistry;

verus! {

/// Language models by their names.
pub struct ModelRegistry<M> {
    models: Entries<M>,
    default_name: Option<String>,
}

impl<M> View for ModelRegistry<M> {
    type V = Map<Seq<char>, M>;

    closed spec fn view(&self) -> Map<Seq<char>, M> {
        self.models@
    }
}

impl<M: LanguageModel> Default for ModelRegistry<M> {
    fn default() -> (r: Self)
        ensures
            r.wf(),
            r@ == Map::<Seq<char>, M>::empty(),
            r.names() == Seq::<Seq<char>>::empty(),
    {
        ModelRegistry::new()
    }
}

impl<M: LanguageModel> ModelRegistry<M> {
    /// Whether each name stands once and the default is the name that came first.
    pub closed spec fn wf(self) -> bool {
        &&& self.models.wf()
        &&& self.default_name.deep_view() == if self.names().len() == 0 {
            None
        } else {
            Some(self.names()[0])
        }
    }

    /// The names, in the order in which they came.
    pub closed spec fn names(self) -> Seq<Seq<char>> {
        self.models.names()
    }

    /// No models.
    pub fn new() -> (r: Self)
        ensures
            r.wf(),
            r@ == Map::<Seq<char>, M>::empty(),
            r.names() == Seq::<Seq<char>>::empty(),
    {
        ModelRegistry { models: Entries::new(), default_name: None }
    }

    /// Registers a model under a name, in place of another of that name.
    pub fn register(&mut self, name: &str, model: M)
        requires
            old(self).wf(),
        ensures
            final(self).wf(),
            final(self)@ == old(self)@.insert(name@, model),
            final(self).names() == if old(self)@.contains_key(name@) {
                old(self).names()
            } else {
                old(self).names().push(name@)
            },
            final(self).names()[0] == if old(self).names().len() == 0 {
                name@
            } else {
                old(self).names()[0]
            },
    {
        proof {
            self.models.lemma_names();
            assert(self@.contains_key(name@) <==> self.models.names().contains(name@));
        }
        if self.default_name.is_none() {
            self.default_name = Some(name.to_owned());
        }
        self.models.insert(name.to_owned(), model);
    }

    /// The model of a name.
    pub fn get(&self, name: &str) -> (r: Option<&M>)
        requires
            self.wf(),
        ensures
            r == if self@.contains_key(name@) {
                Some(&self@[name@])
            } else {
                None
            },
    {
        self.models.get(name)
    }

    /// The model of the name that came first.
    pub fn default_model(&self) -> (r: Option<&M>)
        requires
            self.wf(),
        ensures
            r == if self.names().len() == 0 {
                None
            } else {
                Some(&self@[self.names()[0]])
            },
    {
        proof {
            self.models.lemma_names();
            if self.names().len() > 0 {
                assert(self.names().contains(self.names()[0]));
            }
        }
        match &self.default_name {
            Some(name) => self.models.get(name.as_str()),
            None => None,
        }
    }

    /// The names, in the order in which they came.
    pub fn model_names(&self) -> (r: Vec<&str>)
        requires
            self.wf(),
        ensures
            crate::text::texts(r@) == self.names(),
            forall|k: Seq<char>| self@.contains_key(k) <==> #[trigger] crate::text::texts(r@).contains(k),
            crate::text::texts(r@).no_duplicates(),
    {
        proof {
            self.models.lemma_names();
        }
        self.models.list_names()
    }
}

} // verus!
