//! Grid coordinates and the sparse containers keyed by them.
//!
//! A cell is a pair of signed 32-bit coordinates. The containers store each
//! cell under one 64-bit key, so that the standard hash tables can hold them;
//! every contract here speaks of cells only.

use std::collections::{HashMap, HashSet};
use vstd::prelude::*;
use vstd::std_specs::hash::{spec_hash_keys_iter, spec_keys_iter};
use vstd::std_specs::iter::IteratorSpec;

verus! {

broadcast use vstd::std_specs::hash::group_hash_axioms;

/// One unit of the grid, as `(x, y)`.
pub type Cell = (i32, i32);

/// The key under which a cell is stored: both coordinates shifted to be
/// non-negative, `x` in the upper 32 bits and `y` in the lower.
pub open spec fn cell_key(c: Cell) -> u64 {
    ((c.0 as int + 0x8000_0000) * 0x1_0000_0000 + (c.1 as int + 0x8000_0000)) as u64
}

/// The cell that is stored under a key.
pub open spec fn key_cell(k: u64) -> Cell {
    (
        (k as int / 0x1_0000_0000 - 0x8000_0000) as i32,
        (k as int % 0x1_0000_0000 - 0x8000_0000) as i32,
    )
}

/// Every cell is found again from its key.
pub proof fn lemma_cell_key_inverse(c: Cell)
    ensures
        key_cell(cell_key(c)) == c,
{
    let hi: int = c.0 as int + 0x8000_0000;
    let lo: int = c.1 as int + 0x8000_0000;
    assert((hi * 0x1_0000_0000 + lo) / 0x1_0000_0000 == hi && (hi * 0x1_0000_0000 + lo)
        % 0x1_0000_0000 == lo) by (nonlinear_arith)
        requires
            0 <= lo < 0x1_0000_0000,
    ;
}

/// Every key stands for exactly one cell.
pub proof fn lemma_key_cell_inverse(k: u64)
    ensures
        cell_key(key_cell(k)) == k,
{
}

/// Two cells share a key only if they are the same cell.
pub proof fn lemma_cell_key_injective(a: Cell, b: Cell)
    ensures
        cell_key(a) == cell_key(b) <==> a == b,
{
    lemma_cell_key_inverse(a);
    lemma_cell_key_inverse(b);
}

fn pack(c: Cell) -> (k: u64)
    ensures
        k == cell_key(c),
{
    let hi: u64 = (c.0 as i64 + 0x8000_0000) as u64;
    let lo: u64 = (c.1 as i64 + 0x8000_0000) as u64;
    hi * 0x1_0000_0000 + lo
}

fn unpack(k: u64) -> (c: Cell)
    ensures
        c == key_cell(k),
{
    let hi: i64 = (k / 0x1_0000_0000) as i64;
    let lo: i64 = (k % 0x1_0000_0000) as i64;
    ((hi - 0x8000_0000) as i32, (lo - 0x8000_0000) as i32)
}

/// The first `i + 1` items of a sequence are its first `i` items and the
/// item at `i`.
pub proof fn lemma_take_next<A>(s: Seq<A>, i: int)
    requires
        0 <= i < s.len(),
    ensures
        s.take(i + 1) == s.take(i).push(s[i]),
        forall|x: A| #[trigger] s.take(i + 1).contains(x) <==> (s.take(i).contains(x) || x == s[i]),
{
    let before = s.take(i);
    let after = s.take(i + 1);
    assert(after =~= before.push(s[i]));
    assert forall|x: A| #[trigger] after.contains(x) <==> (before.contains(x) || x == s[i]) by {
        if before.contains(x) {
            let j = choose|j: int| 0 <= j < before.len() && before[j] == x;
            assert(after[j] == x);
        }
        if x == s[i] {
            assert(after[i] == x);
        }
    }
}

/// A sparse map from cells to values.
pub struct CellMap<V> {
    slots: HashMap<u64, V>,
}

impl<V> View for CellMap<V> {
    type V = Map<Cell, V>;

    closed spec fn view(&self) -> Map<Cell, V> {
        Map::new(
            |c: Cell| self.slots@.contains_key(cell_key(c)),
            |c: Cell| self.slots@[cell_key(c)],
        )
    }
}

impl<V> CellMap<V> {
    /// A map that holds no cell.
    pub fn new() -> (m: Self)
        ensures
            m@ == Map::<Cell, V>::empty(),
    {
        let m = CellMap { slots: HashMap::new() };
        assert(m@ =~= Map::<Cell, V>::empty());
        m
    }

    /// The value stored for `cell`, if there is one.
    pub fn get(&self, cell: Cell) -> (r: Option<&V>)
        ensures
            match r {
                Some(v) => self@.contains_key(cell) && *v == self@[cell],
                None => !self@.contains_key(cell),
            },
    {
        let k = pack(cell);
        self.slots.get(&k)
    }

    /// Whether a value is stored for `cell`.
    pub fn contains_key(&self, cell: Cell) -> (r: bool)
        ensures
            r == self@.contains_key(cell),
    {
        let k = pack(cell);
        self.slots.contains_key(&k)
    }

    /// Stores `value` for `cell`, replacing what was stored there.
    pub fn insert(&mut self, cell: Cell, value: V)
        ensures
            final(self)@ == old(self)@.insert(cell, value),
    {
        let k = pack(cell);
        self.slots.insert(k, value);
        proof {
            assert forall|c: Cell| c != cell implies cell_key(c) != k by {
                lemma_cell_key_injective(c, cell);
            }
            assert(self@ =~= old(self)@.insert(cell, value));
        }
    }

    /// Forgets what is stored for `cell`; no change where nothing is.
    pub fn remove(&mut self, cell: Cell)
        ensures
            final(self)@ == old(self)@.remove(cell),
    {
        let k = pack(cell);
        self.slots.remove(&k);
        proof {
            assert forall|c: Cell| c != cell implies cell_key(c) != k by {
                lemma_cell_key_injective(c, cell);
            }
            assert(self@ =~= old(self)@.remove(cell));
        }
    }

    /// Whether no cell holds a value.
    pub fn is_empty(&self) -> (r: bool)
        ensures
            r == (self@ == Map::<Cell, V>::empty()),
    {
        let r = self.slots.is_empty();
        proof {
            if r {
                assert(self.slots@.dom() =~= Set::empty());
                assert(self@ =~= Map::<Cell, V>::empty());
            } else {
                if self@ == Map::<Cell, V>::empty() {
                    assert forall|k: u64| !self.slots@.contains_key(k) by {
                        lemma_key_cell_inverse(k);
                        assert(!self@.contains_key(key_cell(k)));
                    }
                    assert(self.slots@.dom() =~= Set::empty());
                }
            }
        }
        r
    }

    /// The cells that hold a value, each once, in no particular order.
    pub fn cells(&self) -> (v: Vec<Cell>)
        ensures
            v@.no_duplicates(),
            v@.to_set() == self@.dom(),
    {
        let mut v: Vec<Cell> = Vec::new();
        for k in it: self.slots.keys()
            invariant
                it.seq() == spec_keys_iter(&self.slots).remaining(),
                v@.len() == it.index(),
                forall|i: int| 0 <= i < v@.len() ==> v@[i] == key_cell(*it.seq()[i]),
        {
            v.push(unpack(*k));
        }
        proof {
            let keys = spec_keys_iter(&self.slots).remaining().unref();
            assert(keys.len() == v@.len());
            assert forall|i: int| 0 <= i < v@.len() implies v@[i] == key_cell(keys[i]) by {}
            lemma_cells_of_keys(keys, v@);
            assert(keys.to_set() == self.slots@.dom());
            assert forall|c: Cell| v@.to_set().contains(c) == self@.dom().contains(c) by {
                assert(keys.to_set().contains(cell_key(c)) == self.slots@.dom().contains(
                    cell_key(c),
                ));
            }
            assert(v@.to_set() =~= self@.dom());
        }
        v
    }

    /// Those of `cells` that hold a value.
    pub fn keys_among(&self, cells: &Vec<Cell>) -> (kept: Vec<Cell>)
        ensures
            cells@.no_duplicates() ==> kept@.no_duplicates(),
            kept@.to_set() == cells@.to_set().intersect(self@.dom()),
    {
        let mut kept: Vec<Cell> = Vec::new();
        let ghost mut source: Seq<int> = Seq::empty();
        let mut i: usize = 0;
        while i < cells.len()
            invariant
                i <= cells.len(),
                source.len() == kept@.len(),
                forall|j: int|
                    0 <= j < kept@.len() ==> 0 <= #[trigger] source[j] < i && cells@[source[j]]
                        == kept@[j],
                forall|j: int, k: int| 0 <= j < k < kept@.len() ==> source[j] < source[k],
                forall|j: int| 0 <= j < kept@.len() ==> self@.contains_key(#[trigger] kept@[j]),
                forall|k: int|
                    0 <= k < i && self@.contains_key(#[trigger] cells@[k]) ==> kept@.contains(
                        cells@[k],
                    ),
            decreases cells.len() - i,
        {
            let c = cells[i];
            if self.contains_key(c) {
                let ghost before = kept@;
                kept.push(c);
                proof {
                    source = source.push(i as int);
                    assert forall|k: int|
                        0 <= k < i + 1 && self@.contains_key(
                            #[trigger] cells@[k],
                        ) implies kept@.contains(cells@[k]) by {
                        if k < i {
                            let j = choose|j: int| 0 <= j < before.len() && before[j] == cells@[k];
                            assert(kept@[j] == cells@[k]);
                        } else {
                            assert(kept@[before.len() as int] == cells@[k]);
                        }
                    }
                }
            }
            i += 1;
        }
        proof {
            if cells@.no_duplicates() {
                assert forall|j: int, k: int|
                    0 <= j < kept@.len() && 0 <= k < kept@.len() && j != k implies kept@[j]
                    != kept@[k] by {
                    assert(source[j] != source[k]);
                }
            }
            assert forall|c: Cell|
                kept@.to_set().contains(c) == cells@.to_set().intersect(self@.dom()).contains(
                    c,
                ) by {
                if kept@.to_set().contains(c) {
                    let j = choose|j: int| 0 <= j < kept@.len() && kept@[j] == c;
                    assert(cells@[source[j]] == c);
                    assert(cells@.contains(c));
                }
                if cells@.to_set().contains(c) && self@.dom().contains(c) {
                    let k = choose|k: int| 0 <= k < cells@.len() && cells@[k] == c;
                    assert(kept@.contains(cells@[k]));
                }
            }
            assert(kept@.to_set() =~= cells@.to_set().intersect(self@.dom()));
        }
        kept
    }

    /// Forgets what is stored for each of `cells`.
    pub fn remove_all(&mut self, cells: &Vec<Cell>)
        ensures
            final(self)@ == old(self)@.remove_keys(cells@.to_set()),
    {
        let mut i: usize = 0;
        while i < cells.len()
            invariant
                i <= cells.len(),
                self@ == old(self)@.remove_keys(cells@.take(i as int).to_set()),
            decreases cells.len() - i,
        {
            self.remove(cells[i]);
            proof {
                lemma_take_next(cells@, i as int);
                assert(self@ =~= old(self)@.remove_keys(cells@.take(i + 1).to_set()));
            }
            i += 1;
        }
        proof {
            assert(cells@.take(cells@.len() as int) =~= cells@);
        }
    }
}

/// The cells of a sequence of distinct keys are distinct, and a cell is among
/// them exactly if its key is among the keys.
proof fn lemma_cells_of_keys(keys: Seq<u64>, cells: Seq<Cell>)
    requires
        keys.no_duplicates(),
        keys.len() == cells.len(),
        forall|i: int| 0 <= i < cells.len() ==> cells[i] == key_cell(#[trigger] keys[i]),
    ensures
        cells.no_duplicates(),
        forall|c: Cell| cells.to_set().contains(c) == keys.to_set().contains(cell_key(c)),
{
    assert forall|i: int, j: int| 0 <= i < cells.len() && 0 <= j < cells.len() && i != j implies
        cells[i] != cells[j] by {
        lemma_key_cell_inverse(keys[i]);
        lemma_key_cell_inverse(keys[j]);
    }
    assert forall|c: Cell| cells.to_set().contains(c) == keys.to_set().contains(cell_key(c)) by {
        if cells.to_set().contains(c) {
            let i = choose|i: int| 0 <= i < cells.len() && cells[i] == c;
            lemma_key_cell_inverse(keys[i]);
            assert(keys[i] == cell_key(c));
            assert(keys.contains(cell_key(c)));
        }
        if keys.to_set().contains(cell_key(c)) {
            let i = choose|i: int| 0 <= i < keys.len() && keys[i] == cell_key(c);
            lemma_cell_key_inverse(c);
            assert(cells[i] == c);
            assert(cells.contains(c));
        }
    }
}

/// A sparse set of cells.
pub struct CellSet {
    slots: HashSet<u64>,
}

impl View for CellSet {
    type V = Set<Cell>;

    closed spec fn view(&self) -> Set<Cell> {
        Set::new(|c: Cell| self.slots@.contains(cell_key(c)))
    }
}

impl CellSet {
    /// A set that holds no cell.
    pub fn new() -> (s: Self)
        ensures
            s@ == Set::<Cell>::empty(),
    {
        let s = CellSet { slots: HashSet::new() };
        assert(s@ =~= Set::<Cell>::empty());
        s
    }

    /// Whether `cell` is in the set.
    pub fn contains(&self, cell: Cell) -> (r: bool)
        ensures
            r == self@.contains(cell),
    {
        let k = pack(cell);
        self.slots.contains(&k)
    }

    /// Adds `cell`; no change where it is in the set already.
    pub fn insert(&mut self, cell: Cell)
        ensures
            final(self)@ == old(self)@.insert(cell),
    {
        let k = pack(cell);
        self.slots.insert(k);
        proof {
            assert forall|c: Cell| c != cell implies cell_key(c) != k by {
                lemma_cell_key_injective(c, cell);
            }
            assert(self@ =~= old(self)@.insert(cell));
        }
    }

    /// Takes `cell` out; no change where it is not in the set.
    pub fn remove(&mut self, cell: Cell)
        ensures
            final(self)@ == old(self)@.remove(cell),
    {
        let k = pack(cell);
        self.slots.remove(&k);
        proof {
            assert forall|c: Cell| c != cell implies cell_key(c) != k by {
                lemma_cell_key_injective(c, cell);
            }
            assert(self@ =~= old(self)@.remove(cell));
        }
    }

    /// Empties the set.
    pub fn clear(&mut self)
        ensures
            final(self)@ == Set::<Cell>::empty(),
    {
        self.slots.clear();
        assert(self@ =~= Set::<Cell>::empty());
    }

    /// Whether the set holds no cell.
    pub fn is_empty(&self) -> (r: bool)
        ensures
            r == (self@ == Set::<Cell>::empty()),
    {
        let r = self.slots.is_empty();
        proof {
            if r {
                assert(self.slots@ =~= Set::empty());
                assert(self@ =~= Set::<Cell>::empty());
            } else {
                if self@ == Set::<Cell>::empty() {
                    assert forall|k: u64| !self.slots@.contains(k) by {
                        lemma_key_cell_inverse(k);
                        assert(!self@.contains(key_cell(k)));
                    }
                    assert(self.slots@ =~= Set::empty());
                }
            }
        }
        r
    }

    /// The cells of the set, each once, in no particular order.
    pub fn cells(&self) -> (v: Vec<Cell>)
        ensures
            v@.no_duplicates(),
            v@.to_set() == self@,
    {
        let mut v: Vec<Cell> = Vec::new();
        for k in it: self.slots.iter()
            invariant
                it.seq() == spec_hash_keys_iter(&self.slots).remaining(),
                v@.len() == it.index(),
                forall|i: int| 0 <= i < v@.len() ==> v@[i] == key_cell(*it.seq()[i]),
        {
            v.push(unpack(*k));
        }
        proof {
            let keys = spec_hash_keys_iter(&self.slots).remaining().unref();
            assert(keys.len() == v@.len());
            assert forall|i: int| 0 <= i < v@.len() implies v@[i] == key_cell(keys[i]) by {}
            lemma_cells_of_keys(keys, v@);
            assert(keys.to_set() == self.slots@);
            assert forall|c: Cell| v@.to_set().contains(c) == self@.contains(c) by {
                assert(keys.to_set().contains(cell_key(c)) == self.slots@.contains(cell_key(c)));
            }
            assert(v@.to_set() =~= self@);
        }
        v
    }
}

} // verus!
