//! Values under distinct names, in the order in which the names came.

use vstd::prelude::*;
use crate::text;

verus! {

/// Values under distinct names.
pub struct Entries<T> {
    entries: Vec<(String, T)>,
}

/// The values by their names, of which the last of a name counts.
pub open spec fn by_name<T>(entries: Seq<(String, T)>) -> Map<Seq<char>, T>
    decreases entries.len(),
{
    if entries.len() == 0 {
        Map::empty()
    } else {
        by_name(entries.drop_last()).insert(entries.last().0@, entries.last().1)
    }
}

/// The names of the entries.
pub open spec fn names_of<T>(entries: Seq<(String, T)>) -> Seq<Seq<char>> {
    entries.map_values(|e: (String, T)| e.0@)
}

/// Whether no two of the entries have the same name.
pub open spec fn distinct<T>(entries: Seq<(String, T)>) -> bool {
    forall|i: int, j: int| 0 <= i < j < entries.len() ==> (#[trigger] entries[i]).0@ != (#[trigger] entries[j]).0@
}

pub(crate) proof fn lemma_by_name<T>(entries: Seq<(String, T)>)
    requires
        distinct(entries),
    ensures
        forall|i: int|
            0 <= i < entries.len() ==> by_name(entries).contains_key((#[trigger] entries[i]).0@) && by_name(
                entries,
            )[entries[i].0@] == entries[i].1,
        forall|k: Seq<char>| #[trigger]
            by_name(entries).contains_key(k) ==> exists|i: int| 0 <= i < entries.len() && (#[trigger] entries[i]).0@ == k,
        by_name(entries).dom().finite(),
    decreases entries.len(),
{
    if entries.len() > 0 {
        let rest = entries.drop_last();
        lemma_by_name(rest);
        assert forall|i: int| 0 <= i < entries.len() implies by_name(entries).contains_key((#[trigger] entries[i]).0@)
            && by_name(entries)[entries[i].0@] == entries[i].1 by {
            if i < rest.len() {
                assert(rest[i] == entries[i]);
            }
        }
        assert forall|k: Seq<char>| #[trigger] by_name(entries).contains_key(k) implies exists|i: int|
            0 <= i < entries.len() && (#[trigger] entries[i]).0@ == k by {
            if k == entries.last().0@ {
                assert(entries[entries.len() - 1].0@ == k);
            } else {
                assert(by_name(rest).contains_key(k));
                let i = choose|i: int| 0 <= i < rest.len() && (#[trigger] rest[i]).0@ == k;
                assert(entries[i].0@ == k);
            }
        }
    }
}

impl<T> View for Entries<T> {
    type V = Map<Seq<char>, T>;

    closed spec fn view(&self) -> Map<Seq<char>, T> {
        by_name(self.entries@)
    }
}

impl<T> Entries<T> {
    /// Whether the names are distinct.
    pub closed spec fn wf(self) -> bool {
        distinct(self.entries@)
    }

    /// The names in the order in which they came.
    pub closed spec fn names(self) -> Seq<Seq<char>> {
        names_of(self.entries@)
    }

    /// No entries.
    pub fn new() -> (r: Self)
        ensures
            r.wf(),
            r@ == Map::<Seq<char>, T>::empty(),
            r.names() == Seq::<Seq<char>>::empty(),
    {
        let r = Entries { entries: Vec::new() };
        assert(r.names() =~= Seq::<Seq<char>>::empty());
        r
    }

    /// The names are those under which there is a value, each of them once.
    pub proof fn lemma_names(self)
        requires
            self.wf(),
        ensures
            forall|k: Seq<char>| self@.contains_key(k) <==> #[trigger] self.names().contains(k),
            self.names().no_duplicates(),
    {
        lemma_by_name(self.entries@);
        assert forall|k: Seq<char>| self@.contains_key(k) <==> #[trigger] self.names().contains(k) by {
            if self@.contains_key(k) {
                let i = choose|i: int| 0 <= i < self.entries@.len() && (#[trigger] self.entries@[i]).0@ == k;
                assert(self.names()[i] == k);
            }
            if self.names().contains(k) {
                let i = choose|i: int| 0 <= i < self.names().len() && self.names()[i] == k;
                assert(self.entries@[i].0@ == k);
            }
        }
        assert forall|i: int, j: int|
            0 <= i < self.names().len() && 0 <= j < self.names().len() && i != j implies self.names()[i]
            != self.names()[j] by {
            assert(self.names()[i] == self.entries@[i].0@);
            assert(self.names()[j] == self.entries@[j].0@);
        }
    }

    /// The position of `name`.
    fn position(&self, name: &str) -> (r: Option<usize>)
        requires
            self.wf(),
        ensures
            match r {
                Some(i) => i < self.entries@.len() && self.entries@[i as int].0@ == name@ && self@.contains_key(name@)
                    && self@[name@] == self.entries@[i as int].1,
                None => !self@.contains_key(name@) && forall|j: int|
                    0 <= j < self.entries@.len() ==> (#[trigger] self.entries@[j]).0@ != name@,
            },
    {
        proof {
            lemma_by_name(self.entries@);
        }
        let mut i: usize = 0;
        while i < self.entries.len()
            invariant
                i <= self.entries.len(),
                forall|j: int| 0 <= j < i ==> (#[trigger] self.entries@[j]).0@ != name@,
                forall|j: int|
                    0 <= j < self.entries@.len() ==> by_name(self.entries@).contains_key(
                        (#[trigger] self.entries@[j]).0@,
                    ) && by_name(self.entries@)[self.entries@[j].0@] == self.entries@[j].1,
            decreases self.entries.len() - i,
        {
            if text::same_text(self.entries[i].0.as_str(), name) {
                return Some(i);
            }
            i = i + 1;
        }
        None
    }

    /// The value under `name`.
    pub fn get(&self, name: &str) -> (r: Option<&T>)
        requires
            self.wf(),
        ensures
            r == if self@.contains_key(name@) {
                Some(&self@[name@])
            } else {
                None
            },
    {
        match self.position(name) {
            Some(i) => Some(&self.entries[i].1),
            None => None,
        }
    }

    /// Puts `value` under `name`, in place of what was there.
    pub fn insert(&mut self, name: String, value: T)
        requires
            old(self).wf(),
        ensures
            final(self).wf(),
            final(self)@ == old(self)@.insert(name@, value),
            final(self).names() == if old(self)@.contains_key(name@) {
                old(self).names()
            } else {
                old(self).names().push(name@)
            },
    {
        let ghost before = self.entries@;
        match self.position(name.as_str()) {
            Some(i) => {
                let ghost at = name@;
                self.entries.set(i, (name, value));
                proof {
                    lemma_by_name(before);
                    assert(distinct(self.entries@));
                    lemma_by_name(self.entries@);
                    lemma_same_names(before, self.entries@);
                    assert(by_name(self.entries@) =~= by_name(before).insert(at, value)) by {
                        assert forall|k: Seq<char>| #[trigger] by_name(self.entries@).contains_key(k) implies by_name(
                            self.entries@,
                        )[k] == by_name(before).insert(at, value)[k] by {
                            let j = choose|j: int|
                                0 <= j < self.entries@.len() && (#[trigger] self.entries@[j]).0@ == k;
                            if j == i {
                            } else {
                                assert(before[j] == self.entries@[j]);
                                assert(before[i as int].0@ == at);
                            }
                        }
                    }
                    assert(names_of(self.entries@) =~= names_of(before));
                }
            },
            None => {
                let ghost at = name@;
                self.entries.push((name, value));
                proof {
                    assert(self.entries@.drop_last() =~= before);
                    assert(names_of(self.entries@) =~= names_of(before).push(at));
                }
            },
        }
    }

    /// The entries in the order in which their names came.
    pub fn into_vec(self) -> (r: Vec<(String, T)>)
        requires
            self.wf(),
        ensures
            distinct(r@),
            by_name(r@) == self@,
            names_of(r@) == self.names(),
    {
        self.entries
    }

    /// The names in the order in which they came.
    pub fn list_names(&self) -> (r: Vec<&str>)
        ensures
            text::texts(r@) == self.names(),
    {
        let mut r: Vec<&str> = Vec::new();
        let mut i: usize = 0;
        while i < self.entries.len()
            invariant
                i <= self.entries.len(),
                r@.len() == i,
                forall|j: int| 0 <= j < i ==> (#[trigger] r@[j])@ == self.entries@[j].0@,
            decreases self.entries.len() - i,
        {
            r.push(self.entries[i].0.as_str());
            i = i + 1;
        }
        assert(text::texts(r@) =~= self.names());
        r
    }
}

proof fn lemma_same_names<T>(a: Seq<(String, T)>, b: Seq<(String, T)>)
    requires
        distinct(a),
        distinct(b),
        a.len() == b.len(),
        forall|i: int| 0 <= i < a.len() ==> (#[trigger] a[i]).0@ == b[i].0@,
    ensures
        by_name(a).dom() == by_name(b).dom(),
{
    lemma_by_name(a);
    lemma_by_name(b);
    assert forall|k: Seq<char>| by_name(a).dom().contains(k) <==> by_name(b).dom().contains(k) by {
        if by_name(a).contains_key(k) {
            let i = choose|i: int| 0 <= i < a.len() && (#[trigger] a[i]).0@ == k;
            assert(b[i].0@ == k);
        }
        if by_name(b).contains_key(k) {
            let i = choose|i: int| 0 <= i < b.len() && (#[trigger] b[i]).0@ == k;
            assert(a[i].0@ == k);
        }
    }
    assert(by_name(a).dom() =~= by_name(b).dom());
}

} // verus!
