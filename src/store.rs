use vstd::prelude::*;

verus! {

/// The fields of one hash: field name to value.
pub type Fields = Map<Seq<char>, Seq<char>>;

/// A whole store: (hash key, field name) to value.
pub type Cells = Map<(Seq<char>, Seq<char>), Seq<char>>;

/// A list of (field name, value) pairs, as plain sequences.
pub open spec fn pairs_view(fs: Seq<(String, String)>) -> Seq<(Seq<char>, Seq<char>)> {
    fs.map_values(|p: (String, String)| (p.0@, p.1@))
}

/// The hash stored under `key`; empty where no field was ever written.
pub open spec fn hash_of(m: Cells, key: Seq<char>) -> Fields {
    Map::new(|f: Seq<char>| m.contains_key((key, f)), |f: Seq<char>| m[(key, f)])
}

/// The store after writing `fs` into the hash at `key`, pair by pair, so that
/// a later pair for the same field wins.
pub open spec fn apply_writes(m: Cells, key: Seq<char>, fs: Seq<(Seq<char>, Seq<char>)>) -> Cells
    decreases fs.len(),
{
    if fs.len() == 0 {
        m
    } else {
        apply_writes(m, key, fs.drop_last()).insert((key, fs.last().0), fs.last().1)
    }
}

spec fn cell_id(c: (String, String, String)) -> (Seq<char>, Seq<char>) {
    (c.0@, c.1@)
}

/// An in-memory hash store: each hash is a flat map from field name to
/// string value, and a write of several fields is applied as one step.
pub struct MemoryStore {
    cells: Vec<(String, String, String)>,
    contents: Ghost<Cells>,
}

impl View for MemoryStore {
    type V = Cells;

    closed spec fn view(&self) -> Cells {
        self.contents@
    }
}

impl MemoryStore {
    /// Each cell is one (key, field) of the view, with no two cells for the same pair.
    pub closed spec fn wf(&self) -> bool {
        &&& forall|i: int|
            0 <= i < self.cells@.len() ==> {
                &&& self.contents@.contains_key(#[trigger] cell_id(self.cells@[i]))
                &&& self.contents@[cell_id(self.cells@[i])] == self.cells@[i].2@
            }
        &&& forall|kf: (Seq<char>, Seq<char>)|
            #[trigger] self.contents@.contains_key(kf) ==> exists|i: int|
                0 <= i < self.cells@.len() && cell_id(self.cells@[i]) == kf
        &&& forall|i: int, j: int|
            0 <= i < self.cells@.len() && 0 <= j < self.cells@.len() && i != j ==> cell_id(
                #[trigger] self.cells@[i],
            ) != cell_id(#[trigger] self.cells@[j])
    }

    /// An empty store.
    pub fn new() -> (r: MemoryStore)
        ensures
            r.wf(),
            r@ == Cells::empty(),
    {
        MemoryStore { cells: Vec::new(), contents: Ghost(Cells::empty()) }
    }

    /// Sets one field of the hash at `key`.
    pub fn set_field(&mut self, key: &String, field: &String, value: &String)
        requires
            old(self).wf(),
        ensures
            final(self).wf(),
            final(self)@ == old(self)@.insert((key@, field@), value@),
    {
        let ghost kf = (key@, field@);
        let mut i: usize = 0;
        while i < self.cells.len()
            invariant
                self.wf(),
                self@ == old(self)@,
                kf == (key@, field@),
                0 <= i <= self.cells@.len(),
                forall|j: int| 0 <= j < i ==> cell_id(#[trigger] self.cells@[j]) != kf,
            decreases self.cells@.len() - i,
        {
            let same_key = self.cells[i].0 == *key;
            let same_field = self.cells[i].1 == *field;
            if same_key && same_field {
                let ghost before = self.cells@;
                self.cells.set(i, (key.clone(), field.clone(), value.clone()));
                self.contents = Ghost(self.contents@.insert(kf, value@));
                assert(cell_id(self.cells@[i as int]) == kf);
                assert forall|j: int| 0 <= j < self.cells@.len() implies {
                    &&& self.contents@.contains_key(#[trigger] cell_id(self.cells@[j]))
                    &&& self.contents@[cell_id(self.cells@[j])] == self.cells@[j].2@
                } by {
                    if j != i {
                        assert(self.cells@[j] == before[j]);
                        assert(cell_id(before[j]) != cell_id(before[i as int]));
                    }
                }
                assert forall|k: (Seq<char>, Seq<char>)| #[trigger]
                    self.contents@.contains_key(k) implies exists|j: int|
                    0 <= j < self.cells@.len() && cell_id(self.cells@[j]) == k by {
                    if k == kf {
                        assert(cell_id(self.cells@[i as int]) == k);
                    } else {
                        let j = choose|j: int|
                            0 <= j < before.len() && cell_id(before[j]) == k;
                        assert(cell_id(self.cells@[j]) == k);
                    }
                }
                return;
            }
            assert(cell_id(self.cells@[i as int]) != kf);
            i += 1;
        }
        let ghost before = self.cells@;
        self.cells.push((key.clone(), field.clone(), value.clone()));
        self.contents = Ghost(self.contents@.insert(kf, value@));
        assert forall|j: int| 0 <= j < self.cells@.len() implies {
            &&& self.contents@.contains_key(#[trigger] cell_id(self.cells@[j]))
            &&& self.contents@[cell_id(self.cells@[j])] == self.cells@[j].2@
        } by {
            if j < before.len() {
                assert(self.cells@[j] == before[j]);
            }
        }
        assert forall|k: (Seq<char>, Seq<char>)| #[trigger]
            self.contents@.contains_key(k) implies exists|j: int|
            0 <= j < self.cells@.len() && cell_id(self.cells@[j]) == k by {
            if k == kf {
                assert(cell_id(self.cells@[before.len() as int]) == k);
            } else {
                let j = choose|j: int| 0 <= j < before.len() && cell_id(before[j]) == k;
                assert(cell_id(self.cells@[j]) == k);
            }
        }
    }

    /// Writes every pair of `fields` into the hash at `key` in one step;
    /// fields not named keep their values.
    pub fn hset_multiple(&mut self, key: &String, fields: &Vec<(String, String)>)
        requires
            old(self).wf(),
        ensures
            final(self).wf(),
            final(self)@ == apply_writes(old(self)@, key@, pairs_view(fields@)),
    {
        let ghost fs = pairs_view(fields@);
        let mut i: usize = 0;
        while i < fields.len()
            invariant
                self.wf(),
                0 <= i <= fields@.len(),
                fs == pairs_view(fields@),
                self@ == apply_writes(old(self)@, key@, fs.take(i as int)),
            decreases fields@.len() - i,
        {
            self.set_field(key, &fields[i].0, &fields[i].1);
            assert(fs.take(i + 1).drop_last() =~= fs.take(i as int));
            i += 1;
        }
        assert(fs.take(fields@.len() as int) =~= fs);
    }

    /// All fields of the hash at `key`, each field once; empty where the hash
    /// does not exist.
    pub fn hgetall(&self, key: &String) -> (r: Vec<(String, String)>)
        requires
            self.wf(),
        ensures
            forall|j: int|
                0 <= j < r@.len() ==> #[trigger] self@.contains_key((key@, r@[j].0@))
                    && self@[(key@, r@[j].0@)] == r@[j].1@,
            forall|f: Seq<char>|
                #[trigger] self@.contains_key((key@, f)) ==> exists|j: int|
                    0 <= j < r@.len() && r@[j].0@ == f,
            forall|i: int, j: int|
                0 <= i < r@.len() && 0 <= j < r@.len() && i != j ==> (#[trigger] r@[i]).0@
                    != (#[trigger] r@[j]).0@,
    {
        let ghost h = hash_of(self@, key@);
        let mut r: Vec<(String, String)> = Vec::new();
        let mut i: usize = 0;
        while i < self.cells.len()
            invariant
                self.wf(),
                h == hash_of(self@, key@),
                0 <= i <= self.cells@.len(),
                forall|j: int|
                    0 <= j < r@.len() ==> #[trigger] h.contains_key(r@[j].0@) && h[r@[j].0@]
                        == r@[j].1@,
                forall|j: int|
                    0 <= j < r@.len() ==> exists|c: int|
                        0 <= c < i && cell_id(self.cells@[c]) == (key@, (#[trigger] r@[j]).0@),
                forall|c: int|
                    0 <= c < i && (#[trigger] self.cells@[c]).0@ == key@ ==> exists|j: int|
                        0 <= j < r@.len() && r@[j].0@ == self.cells@[c].1@,
                forall|a: int, b: int|
                    0 <= a < r@.len() && 0 <= b < r@.len() && a != b ==> (#[trigger] r@[a]).0@
                        != (#[trigger] r@[b]).0@,
            decreases self.cells@.len() - i,
        {
            if self.cells[i].0 == *key {
                let ghost before = r@;
                let ghost ci = i as int;
                assert(self.contents@.contains_key(cell_id(self.cells@[ci])));
                assert forall|j: int| 0 <= j < before.len() implies before[j].0@
                    != self.cells@[ci].1@ by {
                    let c = choose|c: int|
                        0 <= c < i && cell_id(self.cells@[c]) == (key@, before[j].0@);
                    assert(cell_id(self.cells@[c]) != cell_id(self.cells@[ci]));
                }
                r.push((self.cells[i].1.clone(), self.cells[i].2.clone()));
                assert(cell_id(self.cells@[ci]) == (key@, r@[before.len() as int].0@));
                assert forall|j: int| 0 <= j < r@.len() implies exists|c: int|
                    0 <= c < i + 1 && cell_id(self.cells@[c]) == (key@, (#[trigger] r@[j]).0@) by {
                    if j < before.len() {
                        assert(r@[j] == before[j]);
                    }
                }
                assert forall|c: int|
                    0 <= c < i + 1 && (#[trigger] self.cells@[c]).0@ == key@ implies exists|j: int|
                    0 <= j < r@.len() && r@[j].0@ == self.cells@[c].1@ by {
                    if c < i {
                        let j = choose|j: int| 0 <= j < before.len() && before[j].0@ == self.cells@[c].1@;
                        assert(r@[j] == before[j]);
                    } else {
                        assert(r@[before.len() as int].0@ == self.cells@[c].1@);
                    }
                }
            }
            i += 1;
        }
        assert forall|f: Seq<char>| #[trigger] self@.contains_key((key@, f)) implies exists|j: int|
            0 <= j < r@.len() && r@[j].0@ == f by {
            assert(h.contains_key(f));
            let c = choose|c: int| 0 <= c < self.cells@.len() && cell_id(self.cells@[c]) == (key@, f);
            assert(self.cells@[c].0@ == key@);
        }
        assert forall|j: int| 0 <= j < r@.len() implies #[trigger] self@.contains_key((key@, r@[j].0@))
            && self@[(key@, r@[j].0@)] == r@[j].1@ by {
            assert(h.contains_key(r@[j].0@));
        }
        r
    }
}

} // verus!
