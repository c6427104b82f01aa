//! Tag sets: names under which indexes of elements are registered.

use vstd::prelude::*;

verus! {

/// The indexes registered under one name.
struct Tag {
    /// Name of the tag.
    name: String,
    /// Indexes registered under the name, in the order of their registration.
    indexes: Vec<usize>,
}

/// Definition of tag sets: a mapping between tag names and lists of indexes.
///
/// No name is held twice.
pub struct TagSet {
    /// The tags, in the order in which their names were first used.
    tags: Vec<Tag>,
}

/// The mapping that results from registering `idx` under `name` in the mapping `tags`: the
/// list of `name` has `idx` appended, and starts out empty if `name` was not used before.
pub open spec fn registered(tags: Map<Seq<char>, Seq<usize>>, name: Seq<char>, idx: usize) -> Map<
    Seq<char>,
    Seq<usize>,
> {
    tags.insert(
        name,
        if tags.contains_key(name) {
            tags[name].push(idx)
        } else {
            seq![idx]
        },
    )
}

impl View for TagSet {
    type V = Map<Seq<char>, Seq<usize>>;

    /// The indexes registered under each name that was used.
    closed spec fn view(&self) -> Map<Seq<char>, Seq<usize>> {
        Map::new(
            |name: Seq<char>| self.position(name) is Some,
            |name: Seq<char>| self.tags@[self.position(name)->0].indexes@,
        )
    }
}

impl TagSet {
    #[verifier::type_invariant]
    spec fn names_differ(&self) -> bool {
        forall|i: int, j: int|
            0 <= i < j < self.tags@.len() ==> (#[trigger] self.tags@[i]).name@ != (
            #[trigger] self.tags@[j]).name@
    }

    /// Where the tag of the given name stands, if there is one.
    spec fn position(&self, name: Seq<char>) -> Option<int> {
        if exists|k: int| 0 <= k < self.tags@.len() && (#[trigger] self.tags@[k]).name@ == name {
            Some(
                choose|k: int|
                    0 <= k < self.tags@.len() && (#[trigger] self.tags@[k]).name@ == name,
            )
        } else {
            None
        }
    }

    /// Finds the tag of the given name.
    fn find(&self, name: &str) -> (found: Option<usize>)
        ensures
            match found {
                Some(k) => k < self.tags@.len() && self.position(name@) == Some(k as int),
                None => self.position(name@) is None,
            },
    {
        proof {
            use_type_invariant(self);
        }
        let wanted = name.to_owned();
        let mut k: usize = 0;
        while k < self.tags.len()
            invariant
                k <= self.tags@.len(),
                wanted@ == name@,
                self.names_differ(),
                forall|i: int| 0 <= i < k ==> (#[trigger] self.tags@[i]).name@ != name@,
            decreases self.tags@.len() - k,
        {
            if self.tags[k].name == wanted {
                assert(self.tags@[k as int].name@ == name@);
                return Some(k);
            }
            k += 1;
        }
        None
    }

    /// Accesses the indexes registered under a tag name, if the name was used.
    ///
    /// * `name` - Name of the tag.
    pub fn get_registered_indexes(&self, name: &str) -> (indexes: Option<&Vec<usize>>)
        ensures
            match indexes {
                Some(list) => self@.contains_key(name@) && list@ == self@[name@],
                None => !self@.contains_key(name@),
            },
    {
        match self.find(name) {
            Some(k) => Some(&self.tags[k].indexes),
            None => None,
        }
    }

    /// Registers a new index under a tag name.
    /// If the tag name was not used before, the tag name is added to the set.
    ///
    /// * `name` - Name of the tag.
    /// * `idx` - Index to associate with the tag.
    pub fn register(&mut self, name: &str, idx: usize)
        ensures
            final(self)@ == registered(old(self)@, name@, idx),
    {
        proof {
            use_type_invariant(&*self);
        }
        let found = self.find(name);
        // The tags leave the set while they change, and come back with all names different.
        let mut tags: Vec<Tag> = Vec::new();
        core::mem::swap(&mut tags, &mut self.tags);
        match found {
            Some(k) => {
                tags[k].indexes.push(idx);
            },
            None => {
                let mut indexes = Vec::new();
                indexes.push(idx);
                tags.push(Tag { name: name.to_owned(), indexes });
            },
        }
        core::mem::swap(&mut tags, &mut self.tags);
        proof {
            if found is Some {
                assert forall|n: Seq<char>| self.position(n) == old(self).position(n) by {
                    self.same_names_same_positions(*old(self), n);
                }
            } else {
                assert forall|n: Seq<char>|
                    self.position(n) == if n == name@ {
                        Some(old(self).tags@.len() as int)
                    } else {
                        old(self).position(n)
                    } by {
                    self.position_after_push(*old(self), n);
                }
            }
            assert(self@ =~= registered(old(self)@, name@, idx));
        }
    }

    /// The names in use, each of them once.
    pub fn names(&self) -> (names: Vec<String>)
        ensures
            forall|name: Seq<char>|
                self@.contains_key(name) <==> exists|k: int|
                    0 <= k < names@.len() && (#[trigger] names@[k])@ == name,
            forall|i: int, j: int|
                0 <= i < j < names@.len() ==> (#[trigger] names@[i])@ != (#[trigger] names@[j])@,
    {
        proof {
            use_type_invariant(self);
        }
        let mut names: Vec<String> = Vec::new();
        let mut k: usize = 0;
        while k < self.tags.len()
            invariant
                k <= self.tags@.len(),
                names@.len() == k,
                forall|i: int| 0 <= i < k ==> (#[trigger] names@[i])@ == self.tags@[i].name@,
            decreases self.tags@.len() - k,
        {
            names.push(self.tags[k].name.clone());
            k += 1;
        }
        proof {
            assert forall|name: Seq<char>|
                self@.contains_key(name) <==> exists|k: int|
                    0 <= k < names@.len() && (#[trigger] names@[k])@ == name by {
                if self@.contains_key(name) {
                    let at = self.position(name)->0;
                    assert(names@[at]@ == name);
                }
                if exists|k: int| 0 <= k < names@.len() && (#[trigger] names@[k])@ == name {
                    let at = choose|k: int|
                        0 <= k < names@.len() && (#[trigger] names@[k])@ == name;
                    assert(self.tags@[at].name@ == name);
                }
            }
        }
        names
    }

    /// Two sets that hold the same names in the same order find each name at the same place.
    proof fn same_names_same_positions(&self, other: TagSet, name: Seq<char>)
        requires
            self.names_differ(),
            other.names_differ(),
            self.tags@.len() == other.tags@.len(),
            forall|i: int|
                0 <= i < self.tags@.len() ==> (#[trigger] self.tags@[i]).name@
                    == other.tags@[i].name@,
        ensures
            self.position(name) == other.position(name),
    {
        if let Some(k) = other.position(name) {
            assert(self.tags@[k].name@ == name);
            let l = self.position(name)->0;
            assert(other.tags@[l].name@ == name);
        }
        if let Some(k) = self.position(name) {
            assert(other.tags@[k].name@ == name);
        }
    }

    /// A set that holds one more tag than another, under a new name, finds the new name at
    /// the end and the others where they were.
    proof fn position_after_push(&self, before: TagSet, name: Seq<char>)
        requires
            self.names_differ(),
            before.names_differ(),
            self.tags@.len() == before.tags@.len() + 1,
            forall|i: int|
                0 <= i < before.tags@.len() ==> (#[trigger] self.tags@[i]) == before.tags@[i],
        ensures
            self.position(name) == if self.tags@.last().name@ == name {
                Some(before.tags@.len() as int)
            } else {
                before.position(name)
            },
    {
        let last = before.tags@.len() as int;
        if self.tags@[last].name@ == name {
        } else {
            if let Some(k) = before.position(name) {
                assert(self.tags@[k].name@ == name);
                let l = self.position(name)->0;
                assert(l != last);
                assert(before.tags@[l].name@ == name);
            }
            if let Some(k) = self.position(name) {
                assert(k != last);
                assert(before.tags@[k].name@ == name);
            }
        }
    }
}

impl Default for TagSet {
    /// Creates a tag set in which no name is used.
    fn default() -> (tags: TagSet)
        ensures
            tags@ == Map::<Seq<char>, Seq<usize>>::empty(),
    {
        let tags = TagSet { tags: Vec::new() };
        assert(tags@ =~= Map::<Seq<char>, Seq<usize>>::empty());
        tags
    }
}

} // verus!
