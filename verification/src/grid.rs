use vstd::prelude::*;

verus! {

/// A grid coordinate: column then row.
pub type Coord = (u16, u16);

/// True when no two pairs of `s` share a key.
pub open spec fn unique_keys<V>(s: Seq<(Coord, V)>) -> bool {
    forall|i: int, j: int|
        0 <= i < j < s.len() ==> (#[trigger] s[i]).0 != (#[trigger] s[j]).0
}

/// The grid coordinates whose column is below `width` and row below
/// `height`.
pub open spec fn within_bounds(width: u16, height: u16) -> Set<Coord> {
    Set::new(|c: Coord| c.0 < width && c.1 < height)
}

/// The mathematical map denoted by an association list, later pairs
/// overriding earlier ones.
pub open spec fn map_of<V>(s: Seq<(Coord, V)>) -> Map<Coord, V>
    decreases s.len(),
{
    if s.len() == 0 {
        Map::empty()
    } else {
        map_of(s.drop_last()).insert(s.last().0, s.last().1)
    }
}

pub proof fn lemma_map_of_contains<V>(s: Seq<(Coord, V)>)
    ensures
        forall|k: Coord|
            #[trigger] map_of(s).contains_key(k) <==> (exists|i: int|
                0 <= i < s.len() && (#[trigger] s[i]).0 == k),
        map_of(s).dom().finite(),
    decreases s.len(),
{
    if s.len() == 0 {
    } else {
        lemma_map_of_contains(s.drop_last());
        assert forall|k: Coord| #[trigger] map_of(s).contains_key(k) implies (exists|i: int|
            0 <= i < s.len() && (#[trigger] s[i]).0 == k) by {
            if k == s.last().0 {
                assert(s[s.len() - 1].0 == k);
            } else {
                let i = choose|i: int| 0 <= i < s.drop_last().len() && (#[trigger] s.drop_last()[i]).0 == k;
                assert(s[i].0 == k);
            }
        }
        assert forall|k: Coord| (exists|i: int|
            0 <= i < s.len() && (#[trigger] s[i]).0 == k) implies #[trigger] map_of(s).contains_key(k) by {
            let i = choose|i: int| 0 <= i < s.len() && (#[trigger] s[i]).0 == k;
            if i < s.len() - 1 {
                assert(s.drop_last()[i].0 == k);
            }
        }
    }
}

pub proof fn lemma_map_of_index<V>(s: Seq<(Coord, V)>, i: int)
    requires
        unique_keys(s),
        0 <= i < s.len(),
    ensures
        map_of(s).contains_key(s[i].0),
        map_of(s)[s[i].0] == s[i].1,
    decreases s.len(),
{
    if i == s.len() - 1 {
    } else {
        assert(s.drop_last()[i] == s[i]);
        lemma_map_of_index(s.drop_last(), i);
        assert(s[i].0 != s.last().0);
    }
}

pub proof fn lemma_map_of_len<V>(s: Seq<(Coord, V)>)
    requires
        unique_keys(s),
    ensures
        map_of(s).dom().finite(),
        map_of(s).dom().len() == s.len(),
    decreases s.len(),
{
    lemma_map_of_contains(s);
    if s.len() == 0 {
        assert(map_of(s).dom() =~= Set::<Coord>::empty());
    } else {
        lemma_map_of_len(s.drop_last());
        lemma_map_of_contains(s.drop_last());
        assert(!map_of(s.drop_last()).contains_key(s.last().0)) by {
            if map_of(s.drop_last()).contains_key(s.last().0) {
                let i = choose|i: int|
                    0 <= i < s.drop_last().len() && (#[trigger] s.drop_last()[i]).0 == s.last().0;
                assert(s[i].0 == s.last().0);
            }
        }
        assert(map_of(s).dom() =~= map_of(s.drop_last()).dom().insert(s.last().0));
    }
}

/// Stepping a prefix of the list one pair forward steps the denoted map by
/// one insertion.
pub proof fn lemma_map_of_take_step<V>(s: Seq<(Coord, V)>, i: int)
    requires
        0 <= i < s.len(),
    ensures
        map_of(s.take(i + 1)) == map_of(s.take(i)).insert(s[i].0, s[i].1),
{
    assert(s.take(i + 1).drop_last() =~= s.take(i));
    assert(s.take(i + 1).last() == s[i]);
}

pub proof fn lemma_map_of_update<V>(s: Seq<(Coord, V)>, i: int, v: V)
    requires
        unique_keys(s),
        0 <= i < s.len(),
    ensures
        map_of(s.update(i, (s[i].0, v))) == map_of(s).insert(s[i].0, v),
    decreases s.len(),
{
    let t = s.update(i, (s[i].0, v));
    if i == s.len() - 1 {
        assert(t.drop_last() =~= s.drop_last());
        assert(t.last() == (s[i].0, v));
    } else {
        assert(t.drop_last() =~= s.drop_last().update(i, (s[i].0, v)));
        assert(s.drop_last()[i] == s[i]);
        lemma_map_of_update(s.drop_last(), i, v);
        assert(t.last() == s.last());
        assert(s[i].0 != s.last().0);
        assert(map_of(t) =~= map_of(s).insert(s[i].0, v));
    }
}

pub proof fn lemma_map_of_remove<V>(s: Seq<(Coord, V)>, i: int)
    requires
        unique_keys(s),
        0 <= i < s.len(),
    ensures
        map_of(s.remove(i)) == map_of(s).remove(s[i].0),
    decreases s.len(),
{
    lemma_map_of_contains(s.remove(i));
    lemma_map_of_contains(s);
    if i == s.len() - 1 {
        assert(s.remove(i) =~= s.drop_last());
        assert(!map_of(s.drop_last()).contains_key(s.last().0)) by {
            lemma_map_of_contains(s.drop_last());
            if map_of(s.drop_last()).contains_key(s.last().0) {
                let j = choose|j: int|
                    0 <= j < s.drop_last().len() && (#[trigger] s.drop_last()[j]).0 == s.last().0;
                assert(s[j].0 == s.last().0);
            }
        }
        assert(map_of(s.remove(i)) =~= map_of(s).remove(s[i].0));
    } else {
        assert(s.remove(i).drop_last() =~= s.drop_last().remove(i));
        assert(s.remove(i).last() == s.last());
        assert(s.drop_last()[i] == s[i]);
        lemma_map_of_remove(s.drop_last(), i);
        assert(s[i].0 != s.last().0);
        assert(map_of(s.remove(i)) =~= map_of(s).remove(s[i].0));
    }
}

/// A sparse mapping from grid coordinates to plain values, stored as an
/// association list whose keys are pairwise distinct.
#[derive(Debug)]
pub struct CoordMap<V> {
    entries: Vec<(Coord, V)>,
}

impl<V> CoordMap<V> {
    /// The stored pairs in storage order, for iteration contracts.
    pub closed spec fn pairs(self) -> Seq<(Coord, V)> {
        self.entries@
    }

    #[verifier::type_invariant]
    pub closed spec fn wf(self) -> bool {
        unique_keys(self.entries@)
    }
}

impl<V: Copy> CoordMap<V> {
    /// The mathematical map this collection denotes.
    pub open spec fn as_map(self) -> Map<Coord, V> {
        map_of(self.pairs())
    }

    /// The value at `k`, if any, as the mathematical map gives it.
    pub open spec fn spec_get(self, k: Coord) -> Option<V> {
        if self.as_map().contains_key(k) {
            Option::Some(self.as_map()[k])
        } else {
            Option::None
        }
    }

    /// The stored pairs have pairwise distinct keys and denote `as_map()`;
    /// the published connection between `pairs()` and the map view.
    pub proof fn lemma_pairs(self)
        requires
            self.wf(),
        ensures
            unique_keys(self.pairs()),
            self.as_map() == map_of(self.pairs()),
            self.as_map().dom().finite(),
            self.as_map().dom().len() == self.pairs().len(),
            forall|i: int|
                0 <= i < self.pairs().len() ==> self.as_map().contains_key(
                    (#[trigger] self.pairs()[i]).0,
                ) && self.as_map()[self.pairs()[i].0] == self.pairs()[i].1,
            forall|k: Coord|
                #[trigger] self.as_map().contains_key(k) ==> exists|i: int|
                    0 <= i < self.pairs().len() && (#[trigger] self.pairs()[i]).0 == k,
    {
        lemma_map_of_contains(self.entries@);
        lemma_map_of_len(self.entries@);
        assert forall|i: int| 0 <= i < self.pairs().len() implies self.as_map().contains_key(
            (#[trigger] self.pairs()[i]).0,
        ) && self.as_map()[self.pairs()[i].0] == self.pairs()[i].1 by {
            lemma_map_of_index(self.entries@, i);
        }
    }

    /// An empty mapping.
    pub fn new() -> (r: Self)
        ensures
            r.as_map() == Map::<Coord, V>::empty(),
            r.pairs().len() == 0,
    {
        CoordMap { entries: Vec::new() }
    }

    /// The number of stored coordinates.
    pub fn len(&self) -> (n: usize)
        ensures
            n == self.as_map().dom().len(),
            n == self.pairs().len(),
    {
        proof {
            use_type_invariant(self);
            self.lemma_pairs();
        }
        self.entries.len()
    }

    /// Whether nothing is stored.
    pub fn is_empty(&self) -> (b: bool)
        ensures
            b == (self.as_map() == Map::<Coord, V>::empty()),
    {
        proof {
            use_type_invariant(self);
            self.lemma_pairs();
            if self.pairs().len() == 0 {
                assert(self.as_map() =~= Map::<Coord, V>::empty());
            } else {
                assert(self.as_map().contains_key(self.pairs()[0].0));
            }
        }
        self.entries.len() == 0
    }

    /// The pair at position `i` of the storage order.
    pub fn pair_at(&self, i: usize) -> (p: (Coord, V))
        requires
            i < self.pairs().len(),
        ensures
            p == self.pairs()[i as int],
    {
        self.entries[i]
    }

    fn index_of(&self, k: Coord) -> (r: Option<usize>)
        ensures
            match r {
                Option::Some(i) => i < self.pairs().len() && self.pairs()[i as int].0 == k,
                Option::None => forall|i: int|
                    0 <= i < self.pairs().len() ==> (#[trigger] self.pairs()[i]).0 != k,
            },
    {
        let n = self.entries.len();
        for i in 0..n
            invariant
                n == self.pairs().len(),
                forall|j: int| 0 <= j < i ==> (#[trigger] self.pairs()[j]).0 != k,
        {
            let e = self.entries[i];
            if e.0.0 == k.0 && e.0.1 == k.1 {
                return Option::Some(i);
            }
        }
        Option::None
    }

    /// Whether `k` is present.
    pub fn contains_key(&self, k: Coord) -> (b: bool)
        ensures
            b == self.as_map().contains_key(k),
    {
        proof {
            use_type_invariant(self);
            self.lemma_pairs();
        }
        match self.index_of(k) {
            Option::Some(_) => true,
            Option::None => false,
        }
    }

    /// The value stored at `k`, if any.
    pub fn get(&self, k: Coord) -> (r: Option<V>)
        ensures
            r == self.spec_get(k),
    {
        proof {
            use_type_invariant(self);
            self.lemma_pairs();
        }
        match self.index_of(k) {
            Option::Some(i) => Option::Some(self.entries[i].1),
            Option::None => Option::None,
        }
    }

    /// Stores `v` at `k`, handing back the value it replaces.
    pub fn insert(&mut self, k: Coord, v: V) -> (r: Option<V>)
        ensures
            final(self).as_map() == old(self).as_map().insert(k, v),
            r == old(self).spec_get(k),
            final(self).pairs().len() == if old(self).as_map().contains_key(k) {
                old(self).pairs().len() as int
            } else {
                old(self).pairs().len() + 1 as int
            },
    {
        proof {
            use_type_invariant(&*self);
            self.lemma_pairs();
        }
        match self.index_of(k) {
            Option::Some(i) => {
                let old_v = self.entries[i].1;
                let mut es: Vec<(Coord, V)> = Vec::new();
                core::mem::swap(&mut self.entries, &mut es);
                es[i] = (k, v);
                proof {
                    lemma_map_of_update(old(self).entries@, i as int, v);
                    assert(unique_keys(es@));
                }
                self.entries = es;
                Option::Some(old_v)
            },
            Option::None => {
                let mut es: Vec<(Coord, V)> = Vec::new();
                core::mem::swap(&mut self.entries, &mut es);
                es.push((k, v));
                proof {
                    assert(es@.drop_last() =~= old(self).entries@);
                    assert(unique_keys(es@)) by {
                        assert(forall|i: int|
                            0 <= i < old(self).entries@.len() ==> (#[trigger] es@[i])
                                == old(self).entries@[i]);
                    }
                }
                self.entries = es;
                Option::None
            },
        }
    }

    /// Drops the entry at `k`, handing back the value it held.
    pub fn remove(&mut self, k: Coord) -> (r: Option<V>)
        ensures
            final(self).as_map() == old(self).as_map().remove(k),
            r == old(self).spec_get(k),
    {
        proof {
            use_type_invariant(&*self);
            self.lemma_pairs();
        }
        match self.index_of(k) {
            Option::Some(i) => {
                let old_v = self.entries[i].1;
                let mut es: Vec<(Coord, V)> = Vec::new();
                core::mem::swap(&mut self.entries, &mut es);
                es.remove(i);
                proof {
                    lemma_map_of_remove(old(self).entries@, i as int);
                    assert(unique_keys(es@)) by {
                        assert(forall|j: int|
                            0 <= j < es@.len() ==> #[trigger] es@[j]
                                == if j < i { old(self).entries@[j] } else {
                                old(self).entries@[j + 1]
                            });
                    }
                }
                self.entries = es;
                Option::Some(old_v)
            },
            Option::None => {
                proof {
                    assert(self.as_map() =~= self.as_map().remove(k));
                }
                Option::None
            },
        }
    }

    /// Empties the mapping.
    pub fn clear(&mut self)
        ensures
            final(self).as_map() == Map::<Coord, V>::empty(),
            final(self).pairs().len() == 0,
    {
        self.entries = Vec::new();
    }

    /// A value-for-value copy.
    pub fn duplicate(&self) -> (r: Self)
        ensures
            r.pairs() == self.pairs(),
            r.as_map() == self.as_map(),
    {
        proof {
            use_type_invariant(self);
        }
        let n = self.entries.len();
        let mut out: Vec<(Coord, V)> = Vec::new();
        for i in 0..n
            invariant
                n == self.entries@.len(),
                out@ =~= self.entries@.take(i as int),
        {
            out.push(self.entries[i]);
        }
        proof {
            assert(out@ =~= self.entries@);
        }
        CoordMap { entries: out }
    }

    /// Stores every pair of `other`, overriding what this map held at the
    /// shared keys.
    pub fn extend_from(&mut self, other: &Self)
        ensures
            final(self).as_map() == old(self).as_map().union_prefer_right(other.as_map()),
    {
        proof {
            use_type_invariant(other);
            other.lemma_pairs();
        }
        let n = other.entries.len();
        for i in 0..n
            invariant
                n == other.pairs().len(),
                unique_keys(other.pairs()),
                self.as_map() == old(self).as_map().union_prefer_right(
                    map_of(other.pairs().take(i as int)),
                ),
        {
            let p = other.pair_at(i);
            self.insert(p.0, p.1);
            proof {
                lemma_map_of_take_step(other.pairs(), i as int);
                assert(old(self).as_map().union_prefer_right(
                    map_of(other.pairs().take(i as int)).insert(p.0, p.1),
                ) =~= old(self).as_map().union_prefer_right(
                    map_of(other.pairs().take(i as int)),
                ).insert(p.0, p.1));
            }
        }
        proof {
            assert(other.pairs().take(n as int) =~= other.pairs());
        }
    }

    /// Keeps only the coordinates with both components below the given
    /// bounds, as after a terminal resize.
    pub fn retain_within(&mut self, width: u16, height: u16)
        ensures
            final(self).as_map() == old(self).as_map().restrict(within_bounds(width, height)),
    {
        proof {
            use_type_invariant(&*self);
            self.lemma_pairs();
        }
        let n = self.entries.len();
        let mut out: Vec<(Coord, V)> = Vec::new();
        for i in 0..n
            invariant
                n == old(self).pairs().len(),
                self.entries@ == old(self).entries@,
                unique_keys(old(self).pairs()),
                unique_keys(out@),
                map_of(out@) == map_of(old(self).pairs().take(i as int)).restrict(within_bounds(width, height)),
                forall|j: int|
                    0 <= j < out@.len() ==> exists|l: int|
                        0 <= l < i && (#[trigger] out@[j]).0 == old(self).pairs()[l].0,
        {
            let p = self.entries[i];
            let ghost m_i = map_of(old(self).pairs().take(i as int));
            proof {
                lemma_map_of_take_step(old(self).pairs(), i as int);
                assert(map_of(old(self).pairs().take(i + 1)) == m_i.insert(p.0, p.1));
            }
            if p.0.0 < width && p.0.1 < height {
                let ghost out_old = out@;
                out.push(p);
                proof {
                    assert(unique_keys(out@)) by {
                        assert forall|a: int, b: int| 0 <= a < b < out@.len() implies (
                        #[trigger] out@[a]).0 != (#[trigger] out@[b]).0 by {
                            if b == out@.len() - 1 {
                                let l = choose|l: int|
                                    0 <= l < i && (#[trigger] out_old[a]).0
                                        == old(self).pairs()[l].0;
                                assert(old(self).pairs()[l].0 != old(self).pairs()[i as int].0);
                            }
                        }
                    }
                    assert(out@.drop_last() =~= out_old);
                    assert(out@.last() == p);
                    assert(map_of(out@) == map_of(out_old).insert(p.0, p.1));
                    assert(within_bounds(width, height).contains(p.0));
                    assert(m_i.restrict(within_bounds(width, height)).insert(p.0, p.1) =~= m_i.insert(
                        p.0,
                        p.1,
                    ).restrict(within_bounds(width, height)));
                }
            } else {
                proof {
                    assert(!within_bounds(width, height).contains(p.0));
                    assert(m_i.restrict(within_bounds(width, height)) =~= m_i.insert(
                        p.0,
                        p.1,
                    ).restrict(within_bounds(width, height)));
                }
            }
        }
        self.entries = out;
        proof {
            assert(old(self).pairs().take(n as int) =~= old(self).pairs());
        }
    }
}

} // verus!
