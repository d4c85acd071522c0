//! Providers by their names. The first is the default.

use vstd::prelude::*;
use crate::provider::{Provider, ProviderType};
use crate::registry::Entries;

verus! {

/// Providers by their names.
pub struct ProviderRegistry<P> {
    providers: Entries<P>,
    default_name: Option<String>,
}

impl<P> View for ProviderRegistry<P> {
    type V = Map<Seq<char>, P>;

    closed spec fn view(&self) -> Map<Seq<char>, P> {
        self.providers@
    }
}

impl<P: Provider> Default for ProviderRegistry<P> {
    fn default() -> (r: Self)
        ensures
            r.wf(),
            r@ == Map::<Seq<char>, P>::empty(),
            r.names() == Seq::<Seq<char>>::empty(),
    {
        ProviderRegistry::new()
    }
}

impl<P: Provider> ProviderRegistry<P> {
    /// Whether each name stands once and the default is the name that came first.
    pub closed spec fn wf(self) -> bool {
        &&& self.providers.wf()
        &&& self.default_name.deep_view() == if self.names().len() == 0 {
            None
        } else {
            Some(self.names()[0])
        }
    }

    /// The names, in the order in which they came.
    pub closed spec fn names(self) -> Seq<Seq<char>> {
        self.providers.names()
    }

    /// No providers.
    pub fn new() -> (r: Self)
        ensures
            r.wf(),
            r@ == Map::<Seq<char>, P>::empty(),
            r.names() == Seq::<Seq<char>>::empty(),
    {
        ProviderRegistry { providers: Entries::new(), default_name: None }
    }

    /// Registers a provider under a name, in place of another of that name.
    pub fn register(&mut self, name: &str, provider: P)
        requires
            old(self).wf(),
        ensures
            final(self).wf(),
            final(self)@ == old(self)@.insert(name@, provider),
            final(self).names() == if old(self)@.contains_key(name@) {
                old(self).names()
            } else {
                old(self).names().push(name@)
            },
            final(self).names()[0] == if old(self).names().len() == 0 {
                name@
            } else {
                old(self).names()[0]
            },
    {
        proof {
            self.providers.lemma_names();
            assert(self@.contains_key(name@) <==> self.providers.names().contains(name@));
        }
        if self.default_name.is_none() {
            self.default_name = Some(name.to_owned());
        }
        self.providers.insert(name.to_owned(), provider);
    }

    /// The provider of a name.
    pub fn get(&self, name: &str) -> (r: Option<&P>)
        requires
            self.wf(),
        ensures
            r == if self@.contains_key(name@) {
                Some(&self@[name@])
            } else {
                None
            },
    {
        self.providers.get(name)
    }

    /// The provider of the name that came first.
    pub fn default_provider(&self) -> (r: Option<&P>)
        requires
            self.wf(),
        ensures
            r == if self.names().len() == 0 {
                None
            } else {
                Some(&self@[self.names()[0]])
            },
    {
        proof {
            self.providers.lemma_names();
            if self.names().len() > 0 {
                assert(self.names().contains(self.names()[0]));
            }
        }
        match &self.default_name {
            Some(name) => self.providers.get(name.as_str()),
            None => None,
        }
    }

    /// The names, in the order in which they came.
    pub fn provider_names(&self) -> (r: Vec<&str>)
        requires
            self.wf(),
        ensures
            crate::text::texts(r@) == self.names(),
            forall|k: Seq<char>| self@.contains_key(k) <==> #[trigger] crate::text::texts(r@).contains(k),
            crate::text::texts(r@).no_duplicates(),
    {
        proof {
            self.providers.lemma_names();
        }
        self.providers.list_names()
    }

    /// The kind of the provider of a name.
    pub fn provider_type(&self, name: &str) -> (r: Option<ProviderType>)
        requires
            self.wf(),
        ensures
            r == if self@.contains_key(name@) {
                Some(self@[name@].kind())
            } else {
                None
            },
    {
        match self.providers.get(name) {
            Some(p) => Some(p.provider_type()),
            None => None,
        }
    }
}

} // verus!
