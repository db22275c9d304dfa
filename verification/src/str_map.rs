use vstd::prelude::*;

verus! {

/// The sum of the values of a list of named quantities.
pub open spec fn sum_quantities(s: Seq<(Seq<char>, u32)>) -> int
    decreases s.len(),
{
    if s.len() == 0 {
        0
    } else {
        sum_quantities(s.drop_last()) + s.last().1 as int
    }
}

/// The sum of the values of a finite map of named quantities.
pub open spec fn view_total(m: Map<Seq<char>, u32>) -> int
    decreases m.dom().len(),
    when m.dom().finite()
{
    if m.dom().len() == 0 {
        0
    } else {
        let k = m.dom().choose();
        m[k] as int + view_total(m.remove(k))
    }
}

/// Taking out any one name of a finite map lowers its sum by that name's value, whichever
/// name it is.
pub proof fn lemma_view_total_remove(m: Map<Seq<char>, u32>, k: Seq<char>)
    requires
        m.dom().finite(),
        m.contains_key(k),
    ensures
        view_total(m) == m[k] + view_total(m.remove(k)),
    decreases m.dom().len(),
{
    let c = m.dom().choose();
    assert(m.dom().len() > 0);
    if c != k {
        assert(m.remove(c).dom() =~= m.dom().remove(c));
        assert(m.remove(k).dom() =~= m.dom().remove(k));
        lemma_view_total_remove(m.remove(c), k);
        lemma_view_total_remove(m.remove(k), c);
        assert(m.remove(c).remove(k) =~= m.remove(k).remove(c));
    }
}

/// A list of named quantities with distinct names sums to the sum of the map it lists.
proof fn lemma_sum_is_view_total(s: Seq<(Seq<char>, u32)>, m: Map<Seq<char>, u32>)
    requires
        m.dom().finite(),
        forall|i: int, j: int| 0 <= i < s.len() && 0 <= j < s.len() && i != j ==> s[i].0 != s[j].0,
        forall|k: Seq<char>| #[trigger] m.contains_key(k) <==> exists|i: int| 0 <= i < s.len() && s[i].0 == k,
        forall|i: int| 0 <= i < s.len() ==> #[trigger] m[s[i].0] == s[i].1,
    ensures
        sum_quantities(s) == view_total(m),
    decreases s.len(),
{
    if s.len() == 0 {
        assert(m.dom() =~= Set::<Seq<char>>::empty());
    } else {
        let n = s.len() - 1;
        let (k, v) = s.last();
        let p = s.drop_last();
        let m2 = m.remove(k);
        assert(m.contains_key(k)) by {
            assert(s[n].0 == k);
        }
        assert forall|x: Seq<char>| #[trigger] m2.contains_key(x) <==> exists|i: int| 0 <= i < p.len() && p[i].0 == x by {
            if m2.contains_key(x) {
                let i = choose|i: int| 0 <= i < s.len() && s[i].0 == x;
                assert(i != n);
                assert(p[i] == s[i]);
            }
            if exists|i: int| 0 <= i < p.len() && p[i].0 == x {
                let i = choose|i: int| 0 <= i < p.len() && p[i].0 == x;
                assert(p[i] == s[i]);
                assert(s[i].0 != s[n].0);
                assert(m.contains_key(x));
            }
        }
        assert forall|i: int| 0 <= i < p.len() implies #[trigger] m2[p[i].0] == p[i].1 by {
            assert(p[i] == s[i]);
            assert(s[i].0 != s[n].0);
            assert(m[s[i].0] == s[i].1);
        }
        assert(m2.dom() =~= m.dom().remove(k));
        lemma_sum_is_view_total(p, m2);
        lemma_view_total_remove(m, k);
        assert(m[s[n].0] == s[n].1);
    }
}

/// The quantity a map holds under a name, zero where it holds none.
pub open spec fn quantity_in(m: Map<Seq<char>, u32>, name: Seq<char>) -> u32 {
    if m.contains_key(name) {
        m[name]
    } else {
        0
    }
}

/// Whether two texts hold the same characters.
pub(crate) fn same_text(a: &str, b: &str) -> (r: bool)
    ensures
        r == (a@ == b@),
{
    let x: String = a.to_owned();
    let y: String = b.to_owned();
    x == y
}

/// A finite map keyed by names, kept as a list of entries whose names are distinct.
///
/// Its abstract value is a `Map` from the characters of each name to its value.
#[derive(Debug)]
pub struct StrMap<V> {
    entries: Vec<(String, V)>,
}

impl<V> View for StrMap<V> {
    type V = Map<Seq<char>, V>;

    closed spec fn view(&self) -> Map<Seq<char>, V> {
        Map::new(
            |k: Seq<char>| exists|i: int| self.has_name_at(k, i),
            |k: Seq<char>| self.entries@[choose|i: int| self.has_name_at(k, i)].1,
        )
    }
}

impl<V> StrMap<V> {
    /// The entries, each name taken by its characters, in the order they are stored.
    pub closed spec fn entry_seq(self) -> Seq<(Seq<char>, V)> {
        self.entries@.map_values(|e: (String, V)| (e.0@, e.1))
    }

    closed spec fn has_name_at(self, name: Seq<char>, i: int) -> bool {
        0 <= i < self.entries@.len() && self.entries@[i].0@ == name
    }

    #[verifier::type_invariant]
    closed spec fn names_distinct(self) -> bool {
        forall|i: int, j: int|
            0 <= i < self.entries@.len() && 0 <= j < self.entries@.len() && i != j
                ==> self.entries@[i].0@ != self.entries@[j].0@
    }

    proof fn lemma_view_at(self, i: int)
        requires
            self.names_distinct(),
            0 <= i < self.entries@.len(),
        ensures
            self@.contains_key(self.entries@[i].0@),
            self@[self.entries@[i].0@] == self.entries@[i].1,
    {
        let k = self.entries@[i].0@;
        assert(self.has_name_at(k, i));
        let j = choose|j: int| self.has_name_at(k, j);
        assert(j == i);
    }

    /// An empty map.
    pub fn new() -> (m: Self)
        ensures
            m@ == Map::<Seq<char>, V>::empty(),
    {
        let m = StrMap { entries: Vec::new() };
        assert(m@ =~= Map::<Seq<char>, V>::empty());
        m
    }

    /// Where the map holds `name`, the position of its entry.
    fn position(&self, name: &String) -> (r: Option<usize>)
        ensures
            match r {
                Some(i) => self.has_name_at(name@, i as int),
                None => !self@.contains_key(name@),
            },
    {
        let mut i: usize = 0;
        while i < self.entries.len()
            invariant
                i <= self.entries@.len(),
                forall|j: int| 0 <= j < i ==> self.entries@[j].0@ != name@,
            decreases self.entries@.len() - i,
        {
            if self.entries[i].0 == *name {
                return Some(i);
            }
            i = i + 1;
        }
        None
    }

    /// Whether the map holds a value under `name`.
    pub fn contains_key(&self, name: &str) -> (r: bool)
        ensures
            r == self@.contains_key(name@),
    {
        let key = name.to_owned();
        self.position(&key).is_some()
    }

    /// The value held under `name`, if any.
    pub fn get(&self, name: &str) -> (r: Option<&V>)
        ensures
            match r {
                Some(v) => self@.contains_key(name@) && *v == self@[name@],
                None => !self@.contains_key(name@),
            },
    {
        proof {
            use_type_invariant(self);
        }
        let key = name.to_owned();
        match self.position(&key) {
            Some(i) => {
                proof {
                    self.lemma_view_at(i as int);
                }
                Some(&self.entries[i].1)
            },
            None => None,
        }
    }

    /// Holds `value` under `name`, replacing what was held there.
    pub fn insert(&mut self, name: String, value: V)
        ensures
            final(self)@ == old(self)@.insert(name@, value),
    {
        proof {
            use_type_invariant(&*self);
        }
        let ghost before = self.entries@;
        match self.position(&name) {
            Some(i) => {
                let ghost k = name@;
                let mut entries: Vec<(String, V)> = Vec::new();
                std::mem::swap(&mut entries, &mut self.entries);
                entries.set(i, (name, value));
                self.entries = entries;
                proof {
                    assert forall|a: int, b: int|
                        0 <= a < self.entries@.len() && 0 <= b < self.entries@.len() && a != b
                            implies self.entries@[a].0@ != self.entries@[b].0@ by {
                        if a != i && b != i {
                            assert(before[a].0@ != before[b].0@);
                        }
                    }
                    assert(self.names_distinct());
                    assert forall|k2: Seq<char>| #[trigger] self@.contains_key(k2)
                        <==> old(self)@.insert(k, value).contains_key(k2) by {
                        if old(self)@.contains_key(k2) {
                            let j = choose|j: int| old(self).has_name_at(k2, j);
                            assert(self.has_name_at(k2, j));
                        }
                        if self@.contains_key(k2) {
                            let j = choose|j: int| self.has_name_at(k2, j);
                            if j != i {
                                assert(old(self).has_name_at(k2, j));
                            }
                        }
                        if k2 == k {
                            assert(self.has_name_at(k2, i as int));
                        }
                    }
                    assert forall|k2: Seq<char>| #[trigger] self@.contains_key(k2)
                        implies self@[k2] == old(self)@.insert(k, value)[k2] by {
                        let j = choose|j: int| self.has_name_at(k2, j);
                        self.lemma_view_at(j);
                        if j != i {
                            old(self).lemma_view_at(j);
                        }
                    }
                    assert(self@ =~= old(self)@.insert(k, value));
                }
            },
            None => {
                let ghost k = name@;
                let mut entries: Vec<(String, V)> = Vec::new();
                std::mem::swap(&mut entries, &mut self.entries);
                entries.push((name, value));
                let ghost n = before.len() as int;
                proof {
                    assert(entries@[n].0@ == k);
                    assert forall|a: int, b: int|
                        0 <= a < entries@.len() && 0 <= b < entries@.len() && a != b
                            implies entries@[a].0@ != entries@[b].0@ by {
                        if a != n && b != n {
                            assert(before[a].0@ != before[b].0@);
                        } else if a == n {
                            assert(!old(self).has_name_at(k, b));
                        } else {
                            assert(!old(self).has_name_at(k, a));
                        }
                    }
                }
                self.entries = entries;
                proof {
                    assert(self.names_distinct());
                    assert forall|k2: Seq<char>| #[trigger] self@.contains_key(k2)
                        <==> old(self)@.insert(k, value).contains_key(k2) by {
                        if old(self)@.contains_key(k2) {
                            let j = choose|j: int| old(self).has_name_at(k2, j);
                            assert(self.has_name_at(k2, j));
                        }
                        if self@.contains_key(k2) {
                            let j = choose|j: int| self.has_name_at(k2, j);
                            if j != n {
                                assert(old(self).has_name_at(k2, j));
                            }
                        }
                        if k2 == k {
                            assert(self.has_name_at(k2, n));
                        }
                    }
                    assert forall|k2: Seq<char>| #[trigger] self@.contains_key(k2)
                        implies self@[k2] == old(self)@.insert(k, value)[k2] by {
                        let j = choose|j: int| self.has_name_at(k2, j);
                        self.lemma_view_at(j);
                        if j != n {
                            old(self).lemma_view_at(j);
                        }
                    }
                    assert(self@ =~= old(self)@.insert(k, value));
                }
            },
        }
    }

    /// Removes what is held under `name`, if anything.
    pub fn remove(&mut self, name: &str)
        ensures
            final(self)@ == old(self)@.remove(name@),
    {
        proof {
            use_type_invariant(&*self);
        }
        let key = name.to_owned();
        let ghost before = self.entries@;
        match self.position(&key) {
            Some(i) => {
                let ghost k = key@;
                let mut entries: Vec<(String, V)> = Vec::new();
                std::mem::swap(&mut entries, &mut self.entries);
                let _ = entries.remove(i);
                self.entries = entries;
                proof {
                    assert forall|a: int| 0 <= a < self.entries@.len()
                        implies #[trigger] self.entries@[a] == before[if a < i { a } else { a + 1 }] by {}
                    assert forall|a: int, b: int|
                        0 <= a < self.entries@.len() && 0 <= b < self.entries@.len() && a != b
                            implies self.entries@[a].0@ != self.entries@[b].0@ by {
                        let a2 = if a < i { a } else { a + 1 };
                        let b2 = if b < i { b } else { b + 1 };
                        assert(self.entries@[a] == before[a2]);
                        assert(self.entries@[b] == before[b2]);
                        assert(before[a2].0@ != before[b2].0@);
                    }
                    assert(self.names_distinct());
                    assert forall|k2: Seq<char>| #[trigger] self@.contains_key(k2)
                        <==> old(self)@.remove(k).contains_key(k2) by {
                        if old(self)@.contains_key(k2) && k2 != k {
                            let j = choose|j: int| old(self).has_name_at(k2, j);
                            assert(j != i);
                            let j2 = if j < i { j } else { j - 1 };
                            assert(self.entries@[j2] == before[j]);
                            assert(self.has_name_at(k2, j2));
                        }
                        if self@.contains_key(k2) {
                            let j = choose|j: int| self.has_name_at(k2, j);
                            let j2 = if j < i { j } else { j + 1 };
                            assert(self.entries@[j] == before[j2]);
                            assert(old(self).has_name_at(k2, j2));
                            assert(j2 != i);
                            assert(before[j2].0@ != before[i as int].0@);
                        }
                    }
                    assert forall|k2: Seq<char>| #[trigger] self@.contains_key(k2)
                        implies self@[k2] == old(self)@.remove(k)[k2] by {
                        let j = choose|j: int| self.has_name_at(k2, j);
                        self.lemma_view_at(j);
                        let j2 = if j < i { j } else { j + 1 };
                        assert(self.entries@[j] == before[j2]);
                        old(self).lemma_view_at(j2);
                    }
                    assert(self@ =~= old(self)@.remove(k));
                }
            },
            None => {
                assert(self@ =~= old(self)@.remove(key@));
            },
        }
    }

    /// The entries, in the order they are stored.
    pub fn entries(&self) -> (r: &Vec<(String, V)>)
        ensures
            r@.map_values(|e: (String, V)| (e.0@, e.1)) == self.entry_seq(),
            forall|i: int, j: int|
                0 <= i < r@.len() && 0 <= j < r@.len() && i != j ==> r@[i].0@ != r@[j].0@,
            forall|i: int|
                #![trigger r@[i]]
                0 <= i < r@.len() ==> self@.contains_key(r@[i].0@) && self@[r@[i].0@] == r@[i].1,
            forall|k: Seq<char>|
                #![trigger self@.contains_key(k)]
                self@.contains_key(k) ==> exists|i: int| 0 <= i < r@.len() && #[trigger] r@[i].0@ == k,
    {
        proof {
            use_type_invariant(self);
            assert forall|i: int|
                #![trigger self.entries@[i]]
                0 <= i < self.entries@.len() implies self@.contains_key(self.entries@[i].0@)
                    && self@[self.entries@[i].0@] == self.entries@[i].1 by {
                self.lemma_view_at(i);
            }
            assert forall|k: Seq<char>| #![trigger self@.contains_key(k)] self@.contains_key(k) implies exists|i: int|
                0 <= i < self.entries@.len() && #[trigger] self.entries@[i].0@ == k by {
                let i = choose|i: int| self.has_name_at(k, i);
                assert(self.entries@[i].0@ == k);
            }
        }
        &self.entries
    }
}

impl<V: Clone> Clone for StrMap<V> {
    /// A copy with the same names, each holding a clone of its value.
    fn clone(&self) -> (r: Self)
        ensures
            r@.dom() == self@.dom(),
            forall|k: Seq<char>| #[trigger] r@.contains_key(k) ==> cloned::<V>(self@[k], r@[k]),
    {
        proof {
            use_type_invariant(self);
        }
        let mut entries: Vec<(String, V)> = Vec::new();
        let mut i: usize = 0;
        while i < self.entries.len()
            invariant
                self.names_distinct(),
                i <= self.entries@.len(),
                entries@.len() == i,
                forall|j: int|
                    0 <= j < i ==> (#[trigger] entries@[j]).0@ == self.entries@[j].0@ && cloned::<V>(
                        self.entries@[j].1,
                        entries@[j].1,
                    ),
            decreases self.entries@.len() - i,
        {
            let name = self.entries[i].0.clone();
            let value = self.entries[i].1.clone();
            entries.push((name, value));
            i = i + 1;
        }
        let r = StrMap { entries };
        proof {
            assert forall|k: Seq<char>| #[trigger] r@.contains_key(k) == self@.contains_key(k) by {
                if r@.contains_key(k) {
                    let j = choose|j: int| r.has_name_at(k, j);
                    assert(self.has_name_at(k, j));
                }
                if self@.contains_key(k) {
                    let j = choose|j: int| self.has_name_at(k, j);
                    assert(r.has_name_at(k, j));
                }
            }
            assert(r@.dom() =~= self@.dom());
            assert forall|k: Seq<char>| #[trigger] r@.contains_key(k) implies cloned::<V>(self@[k], r@[k]) by {
                let j = choose|j: int| r.has_name_at(k, j);
                r.lemma_view_at(j);
                self.lemma_view_at(j);
            }
        }
        r
    }
}

impl StrMap<u32> {
    /// The quantity held under `name`, zero where none is held.
    pub fn quantity(&self, name: &str) -> (r: u32)
        ensures
            r == quantity_in(self@, name@),
    {
        match self.get(name) {
            Some(v) => *v,
            None => 0,
        }
    }

    /// The sum of all quantities held.
    pub open spec fn spec_total(self) -> int {
        view_total(self@)
    }

    /// The map is finite and its sum is the sum of its entries.
    proof fn lemma_total_of_entries(self)
        requires
            self.names_distinct(),
        ensures
            self@.dom().finite(),
            sum_quantities(self.entry_seq()) == view_total(self@),
    {
        let s = self.entry_seq();
        let names = s.map_values(|e: (Seq<char>, u32)| e.0);
        assert forall|k: Seq<char>| #[trigger] self@.contains_key(k) <==> exists|i: int| 0 <= i < s.len() && s[i].0 == k by {
            if self@.contains_key(k) {
                let i = choose|i: int| self.has_name_at(k, i);
                assert(s[i].0 == k);
            }
            if exists|i: int| 0 <= i < s.len() && s[i].0 == k {
                let i = choose|i: int| 0 <= i < s.len() && s[i].0 == k;
                assert(self.has_name_at(k, i));
            }
        }
        assert forall|k: Seq<char>| #[trigger] self@.dom().contains(k) <==> names.to_set().contains(k) by {
            if self@.dom().contains(k) {
                let i = choose|i: int| 0 <= i < s.len() && s[i].0 == k;
                assert(names[i] == k);
            }
            if names.to_set().contains(k) {
                let i = choose|i: int| 0 <= i < names.len() && names[i] == k;
                assert(s[i].0 == k);
            }
        }
        assert(self@.dom() =~= names.to_set());
        broadcast use vstd::seq_lib::seq_to_set_is_finite;
        assert(names.to_set().finite());
        assert forall|i: int| 0 <= i < s.len() implies #[trigger] self@[s[i].0] == s[i].1 by {
            self.lemma_view_at(i);
        }
        lemma_sum_is_view_total(s, self@);
    }

    /// The sum of all quantities held; the sum must fit in a `u32`.
    pub fn total(&self) -> (r: u32)
        requires
            self.spec_total() <= u32::MAX,
        ensures
            r == self.spec_total(),
    {
        let mut sum: u32 = 0;
        let mut i: usize = 0;
        let ghost s = self.entry_seq();
        proof {
            use_type_invariant(self);
            self.lemma_total_of_entries();
            lemma_sum_prefix_bounded(s);
        }
        while i < self.entries.len()
            invariant
                s == self.entry_seq(),
                s.len() == self.entries@.len(),
                i <= s.len(),
                sum == sum_quantities(s.take(i as int)),
                sum_quantities(s) <= u32::MAX,
                forall|j: int| 0 <= j <= s.len() ==> sum_quantities(#[trigger] s.take(j)) <= sum_quantities(s),
            decreases s.len() - i,
        {
            assert(s.take(i + 1).drop_last() =~= s.take(i as int));
            assert(s[i as int].1 == self.entries@[i as int].1);
            assert(sum_quantities(s.take(i + 1)) <= sum_quantities(s));
            sum = sum + self.entries[i].1;
            i = i + 1;
        }
        assert(s.take(s.len() as int) =~= s);
        sum
    }
}

/// Every prefix of a list of quantities sums to at most the whole.
pub proof fn lemma_sum_prefix_bounded(s: Seq<(Seq<char>, u32)>)
    ensures
        forall|j: int| 0 <= j <= s.len() ==> sum_quantities(#[trigger] s.take(j)) <= sum_quantities(s),
    decreases s.len(),
{
    if s.len() > 0 {
        lemma_sum_prefix_bounded(s.drop_last());
        assert forall|j: int| 0 <= j <= s.len() implies sum_quantities(#[trigger] s.take(j)) <= sum_quantities(s) by {
            if j < s.len() {
                assert(s.take(j) =~= s.drop_last().take(j));
            } else {
                assert(s.take(j) =~= s);
            }
        }
    }
}

} // verus!
