//! The registry's own associative container: identifier -> altitude.
//!
//! The actor owns exactly one [`AirplaneMap`] and hands out copies of it in
//! snapshot replies. Its abstract value is a `Map<Seq<char>, i32>`; the
//! representation is a vector of [`AirplaneStatus`] records whose
//! identifiers are pairwise distinct.

use vstd::prelude::*;

use crate::database::AirplaneStatus;

verus! {

/// Whether the identifiers of `entries` are pairwise distinct.
pub open spec fn distinct_identifiers(entries: Seq<AirplaneStatus>) -> bool {
    forall|i: int, j: int|
        0 <= i < j < entries.len() ==> entries[i].identifier@ != entries[j].identifier@
}

/// The map that a sequence of records denotes: each record inserts its
/// identifier's entry, later records overwriting earlier ones.
pub open spec fn map_of(entries: Seq<AirplaneStatus>) -> Map<Seq<char>, i32>
    decreases entries.len(),
{
    if entries.len() == 0 {
        Map::empty()
    } else {
        map_of(entries.drop_last()).insert(
            entries.last().identifier@,
            entries.last().altitude,
        )
    }
}

proof fn lemma_map_of_dom(entries: Seq<AirplaneStatus>, k: Seq<char>)
    ensures
        map_of(entries).dom().contains(k) <==> (exists|i: int|
            0 <= i < entries.len() && entries[i].identifier@ == k),
    decreases entries.len(),
{
    if entries.len() > 0 {
        lemma_map_of_dom(entries.drop_last(), k);
        if entries.last().identifier@ == k {
            assert(entries[entries.len() - 1].identifier@ == k);
        } else if map_of(entries).dom().contains(k) {
            let i = choose|i: int|
                0 <= i < entries.drop_last().len() && entries.drop_last()[i].identifier@ == k;
            assert(entries[i].identifier@ == k);
        } else if exists|i: int| 0 <= i < entries.len() && entries[i].identifier@ == k {
            let i = choose|i: int| 0 <= i < entries.len() && entries[i].identifier@ == k;
            assert(entries.drop_last()[i].identifier@ == k);
        }
    }
}

proof fn lemma_map_of_at(entries: Seq<AirplaneStatus>, i: int)
    requires
        distinct_identifiers(entries),
        0 <= i < entries.len(),
    ensures
        map_of(entries).dom().contains(entries[i].identifier@),
        map_of(entries)[entries[i].identifier@] == entries[i].altitude,
    decreases entries.len(),
{
    if i < entries.len() - 1 {
        assert(distinct_identifiers(entries.drop_last()));
        lemma_map_of_at(entries.drop_last(), i);
        assert(entries.drop_last()[i] == entries[i]);
        assert(entries[i].identifier@ != entries.last().identifier@);
    }
}

proof fn lemma_map_of_push(entries: Seq<AirplaneStatus>, airplane: AirplaneStatus)
    ensures
        map_of(entries.push(airplane)) == map_of(entries).insert(
            airplane.identifier@,
            airplane.altitude,
        ),
{
    assert(entries.push(airplane).drop_last() =~= entries);
    assert(entries.push(airplane).last() == airplane);
}

proof fn lemma_map_of_update(entries: Seq<AirplaneStatus>, i: int, airplane: AirplaneStatus)
    requires
        distinct_identifiers(entries),
        0 <= i < entries.len(),
        entries[i].identifier@ == airplane.identifier@,
    ensures
        map_of(entries.update(i, airplane)) == map_of(entries).insert(
            airplane.identifier@,
            airplane.altitude,
        ),
    decreases entries.len(),
{
    let updated = entries.update(i, airplane);
    if i == entries.len() - 1 {
        assert(updated.drop_last() =~= entries.drop_last());
        assert(updated.last() == airplane);
        assert(map_of(entries).insert(airplane.identifier@, airplane.altitude) =~= map_of(
            entries.drop_last(),
        ).insert(airplane.identifier@, airplane.altitude));
    } else {
        assert(distinct_identifiers(entries.drop_last()));
        assert(entries.drop_last()[i] == entries[i]);
        lemma_map_of_update(entries.drop_last(), i, airplane);
        assert(updated.drop_last() =~= entries.drop_last().update(i, airplane));
        assert(updated.last() == entries.last());
        assert(airplane.identifier@ != entries.last().identifier@);
        assert(map_of(updated) =~= map_of(entries).insert(
            airplane.identifier@,
            airplane.altitude,
        ));
    }
}

proof fn lemma_map_of_congruent(s1: Seq<AirplaneStatus>, s2: Seq<AirplaneStatus>)
    requires
        s1.len() == s2.len(),
        forall|i: int| 0 <= i < s1.len() ==> s1[i]@ == s2[i]@,
    ensures
        map_of(s1) == map_of(s2),
    decreases s1.len(),
{
    if s1.len() > 0 {
        assert(forall|i: int| 0 <= i < s1.drop_last().len() ==> s1.drop_last()[i]@ == s2.drop_last()[i]@);
        lemma_map_of_congruent(s1.drop_last(), s2.drop_last());
        assert(s1.last()@ == s2.last()@);
        assert(s1.last().identifier@ == s2.last().identifier@);
        assert(s1.last().altitude == s2.last().altitude);
    }
}

proof fn lemma_map_of_card(entries: Seq<AirplaneStatus>)
    requires
        distinct_identifiers(entries),
    ensures
        map_of(entries).dom().finite(),
        map_of(entries).dom().len() == entries.len(),
    decreases entries.len(),
{
    broadcast use vstd::set::group_set_axioms;

    if entries.len() == 0 {
        assert(map_of(entries).dom() =~= Set::<Seq<char>>::empty());
    } else {
        assert(distinct_identifiers(entries.drop_last()));
        lemma_map_of_card(entries.drop_last());
        lemma_map_of_dom(entries.drop_last(), entries.last().identifier@);
        assert(forall|i: int|
            0 <= i < entries.drop_last().len() ==> entries.drop_last()[i] == entries[i]);
        assert(!map_of(entries.drop_last()).dom().contains(entries.last().identifier@));
        assert(map_of(entries).dom() =~= map_of(entries.drop_last()).dom().insert(
            entries.last().identifier@,
        ));
    }
}

/// The index of the record with the given identifier, if one is present.
fn position_of(entries: &Vec<AirplaneStatus>, identifier: &String) -> (r: Option<usize>)
    ensures
        match r {
            Some(i) => i < entries@.len() && entries@[i as int].identifier@ == identifier@,
            None => forall|i: int|
                0 <= i < entries@.len() ==> entries@[i].identifier@ != identifier@,
        },
{
    let mut idx: usize = 0;
    while idx < entries.len()
        invariant
            idx <= entries@.len(),
            forall|i: int| 0 <= i < idx ==> entries@[i].identifier@ != identifier@,
        decreases entries@.len() - idx,
    {
        if entries[idx].identifier == *identifier {
            return Some(idx);
        }
        idx += 1;
    }
    None
}

/// The registry map: at most one entry per identifier, with the entry's
/// altitude as its value.
#[derive(Debug)]
pub struct AirplaneMap {
    entries: Vec<AirplaneStatus>,
}

impl View for AirplaneMap {
    type V = Map<Seq<char>, i32>;

    closed spec fn view(&self) -> Map<Seq<char>, i32> {
        map_of(self.entries@)
    }
}

impl AirplaneMap {
    #[verifier::type_invariant]
    spec fn wf(self) -> bool {
        distinct_identifiers(self.entries@)
    }

    /// An empty registry map.
    pub fn new() -> (r: AirplaneMap)
        ensures
            r@ == Map::<Seq<char>, i32>::empty(),
    {
        AirplaneMap { entries: Vec::new() }
    }

    /// Inserts or overwrites the entry for `airplane.identifier`.
    pub fn insert(&mut self, airplane: AirplaneStatus)
        ensures
            final(self)@ == old(self)@.insert(airplane.identifier@, airplane.altitude),
    {
        proof {
            use_type_invariant(&*self);
        }
        let mut entries: Vec<AirplaneStatus> = Vec::new();
        std::mem::swap(&mut entries, &mut self.entries);
        match position_of(&entries, &airplane.identifier) {
            Some(i) => {
                proof {
                    lemma_map_of_update(entries@, i as int, airplane);
                    assert(distinct_identifiers(entries@.update(i as int, airplane)));
                }
                entries[i] = airplane;
            },
            None => {
                proof {
                    lemma_map_of_push(entries@, airplane);
                    assert(distinct_identifiers(entries@.push(airplane)));
                }
                entries.push(airplane);
            },
        }
        self.entries = entries;
    }

    /// The altitude stored under `identifier`, if the identifier was ever
    /// written.
    pub fn get(&self, identifier: &String) -> (r: Option<i32>)
        ensures
            r == (if self@.dom().contains(identifier@) {
                Some(self@[identifier@])
            } else {
                None::<i32>
            }),
    {
        proof {
            use_type_invariant(&*self);
        }
        match position_of(&self.entries, identifier) {
            Some(i) => {
                proof {
                    lemma_map_of_at(self.entries@, i as int);
                }
                Some(self.entries[i].altitude)
            },
            None => {
                proof {
                    lemma_map_of_dom(self.entries@, identifier@);
                }
                None
            },
        }
    }

    /// A copy of the map with the same abstract value; the copy shares no
    /// storage with the original, so later mutation of one leaves the other
    /// as it was.
    pub fn duplicate(&self) -> (r: AirplaneMap)
        ensures
            r@ == self@,
    {
        proof {
            use_type_invariant(&*self);
        }
        let mut entries: Vec<AirplaneStatus> = Vec::new();
        let mut idx: usize = 0;
        while idx < self.entries.len()
            invariant
                idx <= self.entries@.len(),
                entries@.len() == idx,
                forall|i: int| 0 <= i < idx ==> entries@[i]@ == self.entries@[i]@,
            decreases self.entries@.len() - idx,
        {
            let airplane = &self.entries[idx];
            entries.push(AirplaneStatus::new(airplane.identifier.clone(), airplane.altitude));
            idx += 1;
        }
        proof {
            lemma_map_of_congruent(entries@, self.entries@);
            assert(forall|i: int|
                0 <= i < entries@.len() ==> entries@[i].identifier@
                    == self.entries@[i].identifier@);
            assert(distinct_identifiers(entries@));
        }
        AirplaneMap { entries }
    }

    /// The records of the map, one per identifier that holds an entry, in
    /// no promised order: exactly the graph of the abstract map.
    pub fn records(&self) -> (r: Vec<AirplaneStatus>)
        ensures
            r@.len() == self@.dom().len(),
            distinct_identifiers(r@),
            forall|i: int|
                0 <= i < r@.len() ==> self@.dom().contains(#[trigger] r@[i].identifier@)
                    && self@[r@[i].identifier@] == r@[i].altitude,
    {
        let copy = self.duplicate();
        proof {
            use_type_invariant(&copy);
            lemma_map_of_card(copy.entries@);
            assert forall|i: int| 0 <= i < copy.entries@.len() implies self@.dom().contains(
                #[trigger] copy.entries@[i].identifier@,
            ) && self@[copy.entries@[i].identifier@] == copy.entries@[i].altitude by {
                lemma_map_of_at(copy.entries@, i);
            }
        }
        copy.entries
    }

    /// The number of identifiers that hold an entry.
    pub fn len(&self) -> (r: usize)
        ensures
            r == self@.dom().len(),
    {
        proof {
            use_type_invariant(&*self);
            lemma_map_of_card(self.entries@);
        }
        self.entries.len()
    }
}

} // verus!
