//! Maps and sets that are keyed by coordinates.

use std::collections::{HashMap, HashSet};
use vstd::prelude::*;
use vstd::std_specs::hash::*;
use super::utils::Coordinate;

verus! {

broadcast use group_hash_axioms;

/// The number under which `c` is filed: one for each coordinate.
pub open spec fn key_of(c: Coordinate) -> u64 {
    ((c.x - i32::MIN) * 0x1_0000_0000 + (c.y - i32::MIN)) as u64
}

/// Two coordinates with the same number are the same.
pub proof fn lemma_key_injective(a: Coordinate, b: Coordinate)
    ensures
        key_of(a) == key_of(b) ==> a == b,
{
}

/// As many distinct coordinates as all lie in `keys`, or are `extra`, are at
/// most one more than `keys` has members.
proof fn lemma_distinct_bounded(cells: Seq<Coordinate>, keys: Set<u64>, extra: Coordinate)
    requires
        keys.finite(),
        cells.no_duplicates(),
        forall|i: int|
            0 <= i < cells.len() ==> keys.contains(key_of(#[trigger] cells[i])) || cells[i]
                == extra,
    ensures
        cells.len() <= keys.len() + 1,
{
    let f = |c: Coordinate| key_of(c);
    let mapped = cells.map_values(f);
    assert forall|i: int, j: int| 0 <= i < j < mapped.len() implies mapped[i] != mapped[j] by {
        lemma_key_injective(cells[i], cells[j]);
    }
    assert(mapped.no_duplicates());
    mapped.unique_seq_to_set();
    let bound = keys.insert(key_of(extra));
    assert forall|k: u64| mapped.to_set().contains(k) implies bound.contains(k) by {
        let i = choose|i: int| 0 <= i < mapped.len() && mapped[i] == k;
        assert(mapped[i] == key_of(cells[i]));
    }
    vstd::set_lib::lemma_len_subset(mapped.to_set(), bound);
}

/// The coordinate that is filed under the number `k`.
pub open spec fn coordinate_of(k: u64) -> Coordinate {
    Coordinate {
        x: (k / 0x1_0000_0000 + i32::MIN) as i32,
        y: (k % 0x1_0000_0000 + i32::MIN) as i32,
    }
}

/// Every number is the number of one coordinate.
pub proof fn lemma_key_roundtrip(k: u64, c: Coordinate)
    ensures
        key_of(coordinate_of(k)) == k,
        coordinate_of(key_of(c)) == c,
{
}

/// The coordinate that is filed under the number `k`.
pub fn decode(k: u64) -> (c: Coordinate)
    ensures
        c == coordinate_of(k),
{
    let x: i64 = (k / 0x1_0000_0000) as i64 + i32::MIN as i64;
    let y: i64 = (k % 0x1_0000_0000) as i64 + i32::MIN as i64;
    Coordinate { x: x as i32, y: y as i32 }
}

/// The number under which `c` is filed.
pub fn key(c: Coordinate) -> (k: u64)
    ensures
        k == key_of(c),
{
    let x: u64 = (c.x as i64 - i32::MIN as i64) as u64;
    let y: u64 = (c.y as i64 - i32::MIN as i64) as u64;
    x * 0x1_0000_0000 + y
}

/// A finite map from coordinates to values.
pub struct CoordinateMap<V> {
    cells: HashMap<u64, V>,
}

impl<V> View for CoordinateMap<V> {
    type V = Map<Coordinate, V>;

    closed spec fn view(&self) -> Map<Coordinate, V> {
        Map::new(
            |c: Coordinate| self.cells@.contains_key(key_of(c)),
            |c: Coordinate| self.cells@[key_of(c)],
        )
    }
}

impl<V: Copy> CoordinateMap<V> {
    /// The empty map.
    pub fn new() -> (m: CoordinateMap<V>)
        ensures
            m@ == Map::<Coordinate, V>::empty(),
    {
        let m = CoordinateMap { cells: HashMap::new() };
        assert(m@ =~= Map::<Coordinate, V>::empty());
        m
    }

    /// Files `value` under `c`, in place of what was filed there.
    pub fn insert(&mut self, c: Coordinate, value: V)
        ensures
            final(self)@ == old(self)@.insert(c, value),
    {
        self.cells.insert(key(c), value);
        proof {
            assert forall|d: Coordinate| d != c implies key_of(d) != key_of(c) by {
                lemma_key_injective(d, c);
            }
            assert(self@ =~= old(self)@.insert(c, value));
        }
    }

    /// What is filed under `c`, if anything is.
    pub fn get(&self, c: Coordinate) -> (value: Option<V>)
        ensures
            value == if self@.contains_key(c) {
                Some(self@[c])
            } else {
                None
            },
    {
        let k = key(c);
        match self.cells.get(&k) {
            Some(v) => Some(*v),
            None => None,
        }
    }

    /// The number of coordinates under which something is filed.
    pub closed spec fn count(&self) -> nat {
        self.cells@.len()
    }

    /// The number of coordinates under which something is filed.
    pub fn len(&self) -> (n: usize)
        ensures
            n == self.count(),
    {
        self.cells.len()
    }

    /// Distinct coordinates of which all but `extra` have something filed
    /// under them are at most one more than the map has entries.
    pub proof fn lemma_distinct_cells_bounded(&self, cells: Seq<Coordinate>, extra: Coordinate)
        requires
            cells.no_duplicates(),
            forall|i: int|
                0 <= i < cells.len() ==> self@.contains_key(#[trigger] cells[i])
                    || cells[i] == extra,
        ensures
            cells.len() <= self.count() + 1,
    {
        lemma_distinct_bounded(cells, self.cells@.dom(), extra);
    }

    /// Whether anything is filed under `c`.
    pub fn contains_key(&self, c: Coordinate) -> (b: bool)
        ensures
            b == self@.contains_key(c),
    {
        let k = key(c);
        self.cells.contains_key(&k)
    }
}

/// A finite set of coordinates.
pub struct CoordinateSet {
    cells: HashSet<u64>,
}

impl View for CoordinateSet {
    type V = Set<Coordinate>;

    closed spec fn view(&self) -> Set<Coordinate> {
        Set::new(|c: Coordinate| self.cells@.contains(key_of(c)))
    }
}

impl CoordinateSet {
    /// The empty set.
    pub fn new() -> (s: CoordinateSet)
        ensures
            s@ == Set::<Coordinate>::empty(),
    {
        let s = CoordinateSet { cells: HashSet::new() };
        assert(s@ =~= Set::<Coordinate>::empty());
        s
    }

    /// Adds `c` to the set.
    pub fn insert(&mut self, c: Coordinate)
        ensures
            final(self)@ == old(self)@.insert(c),
    {
        self.cells.insert(key(c));
        proof {
            assert forall|d: Coordinate| d != c implies key_of(d) != key_of(c) by {
                lemma_key_injective(d, c);
            }
            assert(self@ =~= old(self)@.insert(c));
        }
    }

    /// Whether `c` is in the set.
    pub fn contains(&self, c: Coordinate) -> (b: bool)
        ensures
            b == self@.contains(c),
    {
        let k = key(c);
        self.cells.contains(&k)
    }
}

} // verus!
