//! The progress store: a seed-scoped record of the session identity (seed
//! name, team), the location map resolved from the server's data package,
//! the set of already-checked locations, and the items received so far.

use vstd::prelude::*;

verus! {

/// One entry of the location map: a human-readable location name paired with
/// its numeric id, as resolved from the server's data package.
pub struct LocationEntry {
    pub name: String,
    pub id: u64,
}

/// Error returned by store operations that violate the store's lifecycle.
#[derive(Clone, Copy, PartialEq, Eq, Structural, Debug)]
pub enum StoreError {
    /// `initialize` was called while `seed_name` was already non-empty.
    AlreadyInitialized,
}

/// The mathematical content of a progress store, used by contracts.
pub ghost struct StoreModel {
    pub seed: Seq<char>,
    pub team: u64,
    pub locations: Seq<(Seq<char>, u64)>,
    pub checked: Seq<u64>,
    pub items: Seq<u64>,
}

/// The content of a store that holds no prior state: empty seed name (the
/// sentinel for "uninitialized"), team 0, and nothing recorded.
pub open spec fn empty_model() -> StoreModel {
    StoreModel {
        seed: Seq::<char>::empty(),
        team: 0u64,
        locations: Seq::<(Seq<char>, u64)>::empty(),
        checked: Seq::<u64>::empty(),
        items: Seq::<u64>::empty(),
    }
}

/// The id paired with the first occurrence of the given name, if any.
pub open spec fn first_match(pairs: Seq<(Seq<char>, u64)>, name: Seq<char>) -> Option<u64>
    decreases pairs.len(),
{
    if pairs.len() == 0 {
        None
    } else if pairs[0].0 == name {
        Some(pairs[0].1)
    } else {
        first_match(pairs.drop_first(), name)
    }
}

/// Whether a sequence of ids holds no duplicate.
pub open spec fn distinct_u64s(s: Seq<u64>) -> bool {
    forall|i: int, j: int| 0 <= i < j < s.len() ==> s[i] != s[j]
}

/// A seed-scoped, durable record of session identity and progress.
///
/// Lifecycle invariant: `seed_name` is empty exactly until `initialize`
/// succeeds; after that the identity fields and the location map are never
/// replaced, only `checked` and `items` grow.
pub struct ProgressStore {
    pub seed_name: String,
    pub team: u64,
    pub locations: Vec<LocationEntry>,
    pub checked: Vec<u64>,
    pub items: Vec<u64>,
}

impl LocationEntry {
    /// The model of an entry: its name's characters and its id.
    pub open spec fn model(self) -> (Seq<char>, u64) {
        (self.name@, self.id)
    }
}

impl ProgressStore {
    /// The mathematical content of this store.
    pub open spec fn model(self) -> StoreModel {
        StoreModel {
            seed: self.seed_name@,
            team: self.team,
            locations: self.locations@.map_values(|e: LocationEntry| e.model()),
            checked: self.checked@,
            items: self.items@,
        }
    }

    /// The set of already-checked location ids.
    pub open spec fn checked_set(self) -> Set<u64> {
        self.checked@.to_set()
    }

    /// A store is uninitialized exactly while its seed name is empty.
    pub open spec fn is_initialized(self) -> bool {
        self.seed_name@.len() > 0
    }

    /// Well-formedness: the checked list holds no duplicate id, so it
    /// faithfully represents the checked-set.
    pub open spec fn wf(self) -> bool {
        distinct_u64s(self.checked@)
    }

    /// A fresh, uninitialized store: empty seed name (the sentinel for "no
    /// prior state"), team 0, no locations, nothing checked, no items.
    pub fn new_uninitialized() -> (s: ProgressStore)
        ensures
            s.model() == empty_model(),
            !s.is_initialized(),
            s.wf(),
    {
        let s = ProgressStore {
            seed_name: String::new(),
            team: 0,
            locations: Vec::new(),
            checked: Vec::new(),
            items: Vec::new(),
        };
        proof {
            assert(s.model().locations =~= Seq::<(Seq<char>, u64)>::empty());
        }
        s
    }

    /// One-time initialization: sets the session identity and the location
    /// map, only while the seed name is still empty. Succeeds if and only if
    /// the store was uninitialized; an initialized store is left unchanged.
    pub fn initialize(&mut self, seed_name: String, team: u64, locations: Vec<LocationEntry>)
        -> (r: Result<(), StoreError>)
        requires
            old(self).wf(),
        ensures
            final(self).wf(),
            r is Ok <==> !old(self).is_initialized(),
            !old(self).is_initialized() ==> final(self).model() == (StoreModel {
                seed: seed_name@,
                team: team,
                locations: locations@.map_values(|e: LocationEntry| e.model()),
                ..old(self).model()
            }),
            old(self).is_initialized() ==> r == Result::<(), StoreError>::Err(
                StoreError::AlreadyInitialized,
            ) && final(self).model() == old(self).model(),
    {
        if self.seed_name.as_str().is_empty() {
            self.seed_name = seed_name;
            self.team = team;
            self.locations = locations;
            Ok(())
        } else {
            Err(StoreError::AlreadyInitialized)
        }
    }

    /// Whether the given location id has already been checked.
    pub fn is_checked(&self, id: u64) -> (b: bool)
        ensures
            b == self.checked_set().contains(id),
    {
        let mut k: usize = 0;
        while k < self.checked.len()
            invariant
                0 <= k <= self.checked@.len(),
                forall|j: int| 0 <= j < k ==> self.checked@[j] != id,
            decreases self.checked@.len() - k,
        {
            if self.checked[k] == id {
                assert(self.checked@.contains(id));
                return true;
            }
            k += 1;
        }
        assert(!self.checked@.contains(id));
        false
    }

    /// Records a location as checked. Idempotent: an id that is already in
    /// the checked-set leaves the store unchanged; a new id is appended.
    /// Identity, location map and items are untouched either way.
    pub fn mark_location_checked(&mut self, id: u64)
        requires
            old(self).wf(),
        ensures
            final(self).wf(),
            final(self).checked_set() == old(self).checked_set().insert(id),
            old(self).checked_set().contains(id) ==> final(self).model() == old(self).model(),
            !old(self).checked_set().contains(id) ==> final(self).model() == (StoreModel {
                checked: old(self).model().checked.push(id),
                ..old(self).model()
            }),
            final(self).seed_name@ == old(self).seed_name@,
            final(self).team == old(self).team,
            final(self).locations == old(self).locations,
            final(self).items@ == old(self).items@,
    {
        if self.is_checked(id) {
            proof {
                assert(old(self).checked_set().insert(id) =~= old(self).checked_set());
            }
        } else {
            self.checked.push(id);
            proof {
                assert(final(self).checked@ == old(self).checked@.push(id));
                assert forall|i: int, j: int|
                    0 <= i < j < final(self).checked@.len() implies final(self).checked@[i]
                    != final(self).checked@[j] by {
                    if j == final(self).checked@.len() - 1 {
                        assert(old(self).checked@.contains(old(self).checked@[i]));
                    }
                }
                let oldc = old(self).checked@;
                let newc = final(self).checked@;
                assert forall|x: u64| newc.to_set().contains(x) implies oldc.to_set().insert(
                    id,
                ).contains(x) by {
                    let k = choose|k: int| 0 <= k < newc.len() && newc[k] == x;
                    if k < oldc.len() {
                        assert(oldc.contains(x));
                    }
                }
                assert forall|x: u64| oldc.to_set().insert(id).contains(x) implies newc.to_set()
                    .contains(x) by {
                    if x == id {
                        assert(newc[newc.len() - 1] == id);
                        assert(newc.contains(x));
                    } else {
                        let k = choose|k: int| 0 <= k < oldc.len() && oldc[k] == x;
                        assert(newc[k] == x);
                        assert(newc.contains(x));
                    }
                }
                assert(final(self).checked_set() =~= old(self).checked_set().insert(id));
            }
        }
    }

    /// Appends a received item to the item log. Items may repeat: the log
    /// keeps every receipt in order.
    pub fn record_item(&mut self, item_id: u64)
        requires
            old(self).wf(),
        ensures
            final(self).wf(),
            final(self).model() == (StoreModel {
                items: old(self).model().items.push(item_id),
                ..old(self).model()
            }),
    {
        self.items.push(item_id);
    }

    /// Resolves a location name through the map, as populated from the
    /// server's data package: the id of the first entry with this name.
    pub fn location_id_of(&self, name: &String) -> (r: Option<u64>)
        ensures
            r == first_match(self.model().locations, name@),
    {
        let ghost m = self.model().locations;
        proof {
            assert(m.skip(0) =~= m);
        }
        let mut k: usize = 0;
        while k < self.locations.len()
            invariant
                0 <= k <= self.locations@.len(),
                m == self.model().locations,
                first_match(m, name@) == first_match(m.skip(k as int), name@),
            decreases self.locations@.len() - k,
        {
            let matched = self.locations[k].name.eq(name);
            proof {
                assert(m.skip(k as int)[0] == (self.locations@[k as int].name@, self.locations@[
                    k as int
                ].id));
                if matched {
                    assert(first_match(m.skip(k as int), name@) == Some(
                        self.locations@[k as int].id,
                    ));
                } else {
                    assert(m.skip(k as int).drop_first() =~= m.skip(k as int + 1));
                    assert(first_match(m.skip(k as int), name@) == first_match(
                        m.skip(k as int + 1),
                        name@,
                    ));
                }
            }
            if matched {
                return Some(self.locations[k].id);
            }
            k += 1;
        }
        proof {
            assert(m.skip(self.locations@.len() as int) =~= Seq::<(Seq<char>, u64)>::empty());
        }
        None
    }

    /// The number of distinct locations checked so far.
    pub fn checked_count(&self) -> (n: usize)
        ensures
            n == self.checked@.len(),
    {
        self.checked.len()
    }
}

/// The checked-set after a whole sequence of `mark_location_checked` calls,
/// starting from the given set.
pub open spec fn apply_marks(init: Set<u64>, ids: Seq<u64>) -> Set<u64>
    decreases ids.len(),
{
    if ids.len() == 0 {
        init
    } else {
        apply_marks(init.insert(ids[0]), ids.drop_first())
    }
}

/// Law: any sequence of `mark_location_checked` calls — duplicates included —
/// leaves the checked-set equal to the starting set united with the set of
/// distinct ids passed. In particular, from an empty store the checked-set is
/// exactly the set of distinct ids, and repeating a call changes nothing.
pub proof fn lemma_marks_accumulate_distinct(init: Set<u64>, ids: Seq<u64>)
    ensures
        apply_marks(init, ids) == init.union(ids.to_set()),
    decreases ids.len(),
{
    if ids.len() == 0 {
        assert(ids.to_set() =~= Set::<u64>::empty());
        assert(apply_marks(init, ids) =~= init.union(ids.to_set()));
    } else {
        lemma_marks_accumulate_distinct(init.insert(ids[0]), ids.drop_first());
        assert(ids.drop_first().to_set().insert(ids[0]) =~= ids.to_set()) by {
            assert forall|x: u64| ids.to_set().contains(x) implies ids.drop_first()
                .to_set()
                .insert(ids[0])
                .contains(x) by {
                let k = choose|k: int| 0 <= k < ids.len() && ids[k] == x;
                if k > 0 {
                    assert(ids.drop_first()[k - 1] == x);
                    assert(ids.drop_first().contains(x));
                }
            }
            assert forall|x: u64| ids.drop_first().to_set().insert(ids[0]).contains(
                x,
            ) implies ids.to_set().contains(x) by {
                if x == ids[0] {
                    assert(ids.contains(x));
                } else {
                    let k = choose|k: int|
                        0 <= k < ids.drop_first().len() && ids.drop_first()[k] == x;
                    assert(ids[k + 1] == x);
                }
            }
        }
        assert(init.insert(ids[0]).union(ids.drop_first().to_set()) =~= init.union(
            ids.to_set(),
        ));
    }
}

} // verus!
